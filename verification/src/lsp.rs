//! Client side of the language server protocol: the messages of one exchange
//! with a server, and what its replies mean.

pub mod client;
pub mod codec;
pub mod columns;
pub mod config;
pub mod exchange;
pub mod laws;
pub mod params;
pub mod parse;
pub mod sent;
pub mod uri;
pub mod wire;

use vstd::prelude::*;

use crate::json;
use crate::json::Json;
use crate::json::JsonView;
use crate::path::Platform;
use crate::text;

pub use crate::lsp::client::code_actions;
pub use crate::lsp::client::completions;
pub use crate::lsp::client::definitions;
pub use crate::lsp::client::diagnostics;
pub use crate::lsp::client::execute_code_action_command;
pub use crate::lsp::client::formatting;
pub use crate::lsp::client::hover;
pub use crate::lsp::client::references;
pub use crate::lsp::client::rename;
pub use crate::lsp::config::server_name_for_path;

verus! {

/// A place in a document, and the document around it.
#[derive(Debug, Clone)]
pub struct DocumentPosition {
    pub root: String,
    pub path: String,
    pub text: String,
    pub line: usize,
    pub col: usize,
    /// The platform that writes the paths.
    pub platform: Platform,
}

#[derive(Debug, Clone, PartialEq, Eq)]
pub struct LspHover {
    pub contents: String,
    pub server: String,
}

#[derive(Debug, Clone, PartialEq, Eq)]
pub struct LspLocation {
    pub path: String,
    pub line: usize,
    pub col: usize,
    pub preview: Option<String>,
    pub server: String,
}

#[derive(Debug, Clone, PartialEq, Eq)]
pub struct LspCompletion {
    pub label: String,
    pub detail: Option<String>,
    pub insert_text: Option<String>,
    pub server: String,
}

#[derive(Debug, PartialEq, Eq)]
pub struct LspCodeAction {
    pub title: String,
    pub kind: Option<String>,
    pub is_preferred: bool,
    pub edit: Option<LspWorkspaceEdit>,
    pub command_title: Option<String>,
    pub command: Option<LspCommand>,
    pub server: String,
}

#[derive(Debug, PartialEq, Eq)]
pub struct LspCommand {
    pub title: String,
    pub command: String,
    pub arguments: Vec<Json>,
}

#[derive(Debug, Clone, Copy, PartialEq, Eq, Structural)]
pub enum LspDiagnosticSeverity {
    Error,
    Warning,
    Information,
    Hint,
    Unknown,
}

#[derive(Debug, Clone, PartialEq, Eq)]
pub struct LspDiagnostic {
    pub path: String,
    pub line: usize,
    pub col: usize,
    pub severity: LspDiagnosticSeverity,
    pub message: String,
    pub source: Option<String>,
    pub code: Option<String>,
    pub server: String,
}

#[derive(Debug, Clone, PartialEq, Eq)]
pub struct LspWorkspaceEdit {
    pub edits: Vec<LspTextEdit>,
    pub server: String,
}

#[derive(Debug, Clone, PartialEq, Eq)]
pub struct LspTextEdit {
    pub path: String,
    pub start_line: usize,
    pub start_utf16_col: usize,
    pub end_line: usize,
    pub end_utf16_col: usize,
    pub new_text: String,
}

/// A file whose text is known.
#[derive(Debug, Clone, PartialEq, Eq)]
pub struct FileText {
    pub path: String,
    pub text: String,
}

pub struct DocumentView {
    pub root: Seq<char>,
    pub path: Seq<char>,
    pub text: Seq<char>,
    pub line: usize,
    pub col: usize,
    pub platform: Platform,
}

impl View for DocumentPosition {
    type V = DocumentView;

    open spec fn view(&self) -> DocumentView {
        DocumentView {
            root: self.root@,
            path: self.path@,
            text: self.text@,
            line: self.line,
            col: self.col,
            platform: self.platform,
        }
    }
}

pub struct HoverView {
    pub contents: Seq<char>,
    pub server: Seq<char>,
}

impl View for LspHover {
    type V = HoverView;

    open spec fn view(&self) -> HoverView {
        HoverView { contents: self.contents@, server: self.server@ }
    }
}

pub struct LocationView {
    pub path: Seq<char>,
    pub line: usize,
    pub col: usize,
    pub preview: Option<Seq<char>>,
    pub server: Seq<char>,
}

impl View for LspLocation {
    type V = LocationView;

    open spec fn view(&self) -> LocationView {
        LocationView {
            path: self.path@,
            line: self.line,
            col: self.col,
            preview: text::maybe(self.preview),
            server: self.server@,
        }
    }
}

pub struct CompletionView {
    pub label: Seq<char>,
    pub detail: Option<Seq<char>>,
    pub insert_text: Option<Seq<char>>,
    pub server: Seq<char>,
}

impl View for LspCompletion {
    type V = CompletionView;

    open spec fn view(&self) -> CompletionView {
        CompletionView {
            label: self.label@,
            detail: text::maybe(self.detail),
            insert_text: text::maybe(self.insert_text),
            server: self.server@,
        }
    }
}

pub struct CommandView {
    pub title: Seq<char>,
    pub command: Seq<char>,
    pub arguments: Seq<JsonView>,
}

impl View for LspCommand {
    type V = CommandView;

    open spec fn view(&self) -> CommandView {
        CommandView {
            title: self.title@,
            command: self.command@,
            arguments: json::items_view(self.arguments@),
        }
    }
}

pub struct TextEditView {
    pub path: Seq<char>,
    pub start_line: usize,
    pub start_utf16_col: usize,
    pub end_line: usize,
    pub end_utf16_col: usize,
    pub new_text: Seq<char>,
}

impl View for LspTextEdit {
    type V = TextEditView;

    open spec fn view(&self) -> TextEditView {
        TextEditView {
            path: self.path@,
            start_line: self.start_line,
            start_utf16_col: self.start_utf16_col,
            end_line: self.end_line,
            end_utf16_col: self.end_utf16_col,
            new_text: self.new_text@,
        }
    }
}

pub open spec fn edits_view(edits: Seq<LspTextEdit>) -> Seq<TextEditView> {
    Seq::new(edits.len(), |i: int| edits[i]@)
}

pub struct WorkspaceEditView {
    pub edits: Seq<TextEditView>,
    pub server: Seq<char>,
}

impl View for LspWorkspaceEdit {
    type V = WorkspaceEditView;

    open spec fn view(&self) -> WorkspaceEditView {
        WorkspaceEditView { edits: edits_view(self.edits@), server: self.server@ }
    }
}

pub struct CodeActionView {
    pub title: Seq<char>,
    pub kind: Option<Seq<char>>,
    pub is_preferred: bool,
    pub edit: Option<WorkspaceEditView>,
    pub command_title: Option<Seq<char>>,
    pub command: Option<CommandView>,
    pub server: Seq<char>,
}

/// The value of an optional workspace edit.
pub open spec fn maybe_edit(edit: Option<LspWorkspaceEdit>) -> Option<WorkspaceEditView> {
    match edit {
        Some(e) => Some(e@),
        None => None,
    }
}

/// The value of an optional command.
pub open spec fn maybe_command(command: Option<LspCommand>) -> Option<CommandView> {
    match command {
        Some(c) => Some(c@),
        None => None,
    }
}

impl View for LspCodeAction {
    type V = CodeActionView;

    open spec fn view(&self) -> CodeActionView {
        CodeActionView {
            title: self.title@,
            kind: text::maybe(self.kind),
            is_preferred: self.is_preferred,
            edit: maybe_edit(self.edit),
            command_title: text::maybe(self.command_title),
            command: maybe_command(self.command),
            server: self.server@,
        }
    }
}

pub struct DiagnosticView {
    pub path: Seq<char>,
    pub line: usize,
    pub col: usize,
    pub severity: LspDiagnosticSeverity,
    pub message: Seq<char>,
    pub source: Option<Seq<char>>,
    pub code: Option<Seq<char>>,
    pub server: Seq<char>,
}

impl View for LspDiagnostic {
    type V = DiagnosticView;

    open spec fn view(&self) -> DiagnosticView {
        DiagnosticView {
            path: self.path@,
            line: self.line,
            col: self.col,
            severity: self.severity,
            message: self.message@,
            source: text::maybe(self.source),
            code: text::maybe(self.code),
            server: self.server@,
        }
    }
}

/// The values of a list of locations.
pub open spec fn locations_view(items: Seq<LspLocation>) -> Seq<LocationView> {
    Seq::new(items.len(), |i: int| items[i]@)
}

/// The values of a list of completions.
pub open spec fn completions_view(items: Seq<LspCompletion>) -> Seq<CompletionView> {
    Seq::new(items.len(), |i: int| items[i]@)
}

/// The values of a list of diagnostics.
pub open spec fn diagnostics_view(items: Seq<LspDiagnostic>) -> Seq<DiagnosticView> {
    Seq::new(items.len(), |i: int| items[i]@)
}

/// The values of a list of code actions.
pub open spec fn code_actions_view(items: Seq<LspCodeAction>) -> Seq<CodeActionView> {
    Seq::new(items.len(), |i: int| items[i]@)
}

pub struct FileView {
    pub path: Seq<char>,
    pub text: Seq<char>,
}

/// What is known of the files that a server may name: the document as it stands,
/// the other names that its file has, the texts of other files, and the platform
/// that writes their paths.
#[derive(Debug, Clone, Copy)]
pub struct KnownFiles<'a> {
    pub path: &'a str,
    pub text: &'a str,
    pub aliases: &'a Vec<String>,
    pub others: &'a Vec<FileText>,
    pub platform: Platform,
}

pub struct KnownView {
    pub path: Seq<char>,
    pub text: Seq<char>,
    pub aliases: Seq<Seq<char>>,
    pub others: Seq<FileView>,
    pub platform: Platform,
}

impl View for KnownFiles<'_> {
    type V = KnownView;

    open spec fn view(&self) -> KnownView {
        KnownView {
            path: self.path@,
            text: self.text@,
            aliases: text::texts(self.aliases@),
            others: files_view(self.others@),
            platform: self.platform,
        }
    }
}

/// The values of a list of known files.
pub open spec fn files_view(files: Seq<FileText>) -> Seq<FileView> {
    Seq::new(files.len(), |i: int| FileView { path: files[i].path@, text: files[i].text@ })
}

impl LspDiagnosticSeverity {
    pub open spec fn label_text(self) -> Seq<char> {
        match self {
            LspDiagnosticSeverity::Error => "error"@,
            LspDiagnosticSeverity::Warning => "warning"@,
            LspDiagnosticSeverity::Information => "note"@,
            LspDiagnosticSeverity::Hint => "help"@,
            LspDiagnosticSeverity::Unknown => "problem"@,
        }
    }

    pub fn label(self) -> (label: &'static str)
        ensures
            label@ == self.label_text(),
    {
        match self {
            LspDiagnosticSeverity::Error => "error",
            LspDiagnosticSeverity::Warning => "warning",
            LspDiagnosticSeverity::Information => "note",
            LspDiagnosticSeverity::Hint => "help",
            LspDiagnosticSeverity::Unknown => "problem",
        }
    }

    /// The severity that a number of the protocol stands for.
    pub open spec fn of_number(n: Option<u64>) -> LspDiagnosticSeverity {
        if n == Some(1u64) {
            LspDiagnosticSeverity::Error
        } else if n == Some(2u64) {
            LspDiagnosticSeverity::Warning
        } else if n == Some(3u64) {
            LspDiagnosticSeverity::Information
        } else if n == Some(4u64) {
            LspDiagnosticSeverity::Hint
        } else {
            LspDiagnosticSeverity::Unknown
        }
    }

    /// The number of the protocol for a severity; an unknown one goes out as
    /// information.
    pub open spec fn number(self) -> u64 {
        match self {
            LspDiagnosticSeverity::Error => 1,
            LspDiagnosticSeverity::Warning => 2,
            LspDiagnosticSeverity::Information => 3,
            LspDiagnosticSeverity::Hint => 4,
            LspDiagnosticSeverity::Unknown => 3,
        }
    }

    pub fn from_lsp_value(value: Option<&Json>) -> (severity: LspDiagnosticSeverity)
        ensures
            severity == LspDiagnosticSeverity::of_number(json::number_in(json::maybe(value))),
    {
        match json::number_of(value) {
            Some(1) => LspDiagnosticSeverity::Error,
            Some(2) => LspDiagnosticSeverity::Warning,
            Some(3) => LspDiagnosticSeverity::Information,
            Some(4) => LspDiagnosticSeverity::Hint,
            _ => LspDiagnosticSeverity::Unknown,
        }
    }

    pub fn as_lsp_number(self) -> (n: u64)
        ensures
            n == self.number(),
    {
        match self {
            LspDiagnosticSeverity::Error => 1,
            LspDiagnosticSeverity::Warning => 2,
            LspDiagnosticSeverity::Information => 3,
            LspDiagnosticSeverity::Hint => 4,
            LspDiagnosticSeverity::Unknown => 3,
        }
    }
}

/// A severity read back from the number it is sent as is the severity itself,
/// but for an unknown one, which comes back as information.
pub proof fn severity_number_round_trip(severity: LspDiagnosticSeverity)
    ensures
        LspDiagnosticSeverity::of_number(Some(severity.number())) == (if severity
            == LspDiagnosticSeverity::Unknown {
            LspDiagnosticSeverity::Information
        } else {
            severity
        }),
{
}

/// The values that stand for what a server said tell what it said, part by part.
pub proof fn values_tell_their_parts(
    edit: LspTextEdit,
    location: LspLocation,
    completion: LspCompletion,
    problem: LspDiagnostic,
    hover: LspHover,
    command: LspCommand,
)
    ensures
        edit@.path == edit.path@ && edit@.start_line == edit.start_line && edit@.start_utf16_col
            == edit.start_utf16_col && edit@.end_line == edit.end_line && edit@.end_utf16_col
            == edit.end_utf16_col && edit@.new_text == edit.new_text@,
        location@.path == location.path@ && location@.line == location.line && location@.col
            == location.col && location@.server == location.server@,
        location.preview matches Some(preview) ==> location@.preview == Some(preview@),
        location.preview is None ==> location@.preview is None,
        completion@.label == completion.label@ && completion@.server == completion.server@,
        completion.detail matches Some(detail) ==> completion@.detail == Some(detail@),
        completion.detail is None ==> completion@.detail is None,
        completion.insert_text matches Some(inserted) ==> completion@.insert_text == Some(
            inserted@,
        ),
        completion.insert_text is None ==> completion@.insert_text is None,
        problem@.path == problem.path@ && problem@.line == problem.line && problem@.col
            == problem.col && problem@.severity == problem.severity && problem@.message
            == problem.message@ && problem@.server == problem.server@,
        problem.source matches Some(source) ==> problem@.source == Some(source@),
        problem.code matches Some(code) ==> problem@.code == Some(code@),
        hover@.contents == hover.contents@ && hover@.server == hover.server@,
        command@.title == command.title@ && command@.command == command.command@,
        command@.arguments.len() == command.arguments@.len(),
{
}

/// The values that stand for edits and actions tell what they do, part by part.
pub proof fn edits_and_actions_tell_their_parts(
    edit: LspWorkspaceEdit,
    action: LspCodeAction,
    position: DocumentPosition,
    i: int,
)
    ensures
        edit@.server == edit.server@,
        edit@.edits.len() == edit.edits@.len(),
        0 <= i < edit.edits@.len() ==> edit@.edits[i] == edit.edits@[i]@,
        action@.title == action.title@ && action@.is_preferred == action.is_preferred
            && action@.server == action.server@,
        action.kind matches Some(kind) ==> action@.kind == Some(kind@),
        action.edit matches Some(own) ==> action@.edit == Some(own@),
        action.edit is None ==> action@.edit is None,
        action.command matches Some(own) ==> action@.command == Some(own@),
        action.command is None ==> action@.command is None,
        action.command_title matches Some(title) ==> action@.command_title == Some(title@),
        position@.root == position.root@ && position@.path == position.path@ && position@.text
            == position.text@ && position@.line == position.line && position@.col == position.col
            && position@.platform == position.platform,
{
}

/// A severity is told to a server by its number and read from it; one that is not known
/// goes out as information. It is shown by a word.
pub proof fn severities_are_told_by_number_and_word(severity: LspDiagnosticSeverity, n: u64)
    ensures
        !(severity is Unknown) ==> LspDiagnosticSeverity::of_number(Some(severity.number()))
            == severity,
        severity is Unknown ==> severity.number() == 3,
        LspDiagnosticSeverity::of_number(Some(1)) is Error,
        LspDiagnosticSeverity::of_number(Some(2)) is Warning,
        LspDiagnosticSeverity::of_number(Some(3)) is Information,
        LspDiagnosticSeverity::of_number(Some(4)) is Hint,
        n == 0 || n > 4 ==> LspDiagnosticSeverity::of_number(Some(n)) is Unknown,
        LspDiagnosticSeverity::of_number(None) is Unknown,
        severity is Error ==> severity.label_text() == seq!['e', 'r', 'r', 'o', 'r'],
        severity is Warning ==> severity.label_text() == seq!['w', 'a', 'r', 'n', 'i', 'n', 'g'],
        severity is Information ==> severity.label_text() == seq!['n', 'o', 't', 'e'],
        severity is Hint ==> severity.label_text() == seq!['h', 'e', 'l', 'p'],
        severity is Unknown ==> severity.label_text() == seq!['p', 'r', 'o', 'b', 'l', 'e', 'm'],
{
    reveal_strlit("error");
    reveal_strlit("warning");
    reveal_strlit("note");
    reveal_strlit("help");
    reveal_strlit("problem");
}

} // verus!
