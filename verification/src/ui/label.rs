//! Names and short texts.

use vstd::prelude::*;

use crate::fs_tree::VisibleNode;
use crate::lsp::uri::with_slashes;
use crate::mouse::MouseProtocolMode;
use crate::path;
use crate::path::FsPath;
use crate::path::PartView;
use crate::path::Platform;
use crate::text;

verus! {

broadcast use vstd::utf8::group_utf8_lib;

/// The panel that takes the keys.
#[derive(Debug, Clone, Copy, PartialEq, Eq, Structural)]
pub enum FocusPanel {
    Explorer,
    Editor,
    Terminal,
}

/// What the mouse is over.
#[derive(Debug, Clone, Copy, PartialEq, Eq, Structural)]
pub enum HoverTarget {
    Nothing,
    Explorer,
    ExplorerRow(usize),
    Outline,
    OutlineRow(usize),
    Editor,
    EditorPane(usize),
    Tab(usize),
    TabClose(usize),
    TerminalTab(usize),
    TerminalTabClose(usize),
    TerminalNew,
    TerminalResize,
    QuickRow(usize),
    Terminal,
    TerminalInput,
}

/// What the user is asked for.
#[derive(Debug, Clone, Copy, PartialEq, Eq, Structural)]
pub enum PromptKind {
    NewFile,
    NewDir,
    Rename,
    DeletePaths,
    ExplorerFilter,
    OpenFolder,
    Search,
    ReplaceFind { all: bool },
    ReplaceWith { all: bool },
    WorkspaceReplaceFind,
    WorkspaceReplaceWith,
    RenameSymbol,
    SaveAs,
    SaveAsClose,
    CreateGitBranch,
    CommitStagedSourceControlChanges,
    CommitAllSourceControlChanges,
    DiscardSourceControlPath,
    DiscardAllSourceControlChanges,
    TerminalSearch,
    RunTerminalCommand,
    RenameTerminal,
    GotoLine,
    QuitDirty,
}

/// What is listed in the quick panel.
#[derive(Debug, Clone, Copy, PartialEq, Eq, Structural)]
pub enum QuickPanelKind {
    OpenFile,
    Completions,
    CodeActions,
    DirtyClose,
    ExplorerContextMenu,
    EditorContextMenu,
    TerminalContextMenu,
    WorkspaceSearch,
    DocumentSymbols,
    WorkspaceSymbols,
    LspHover,
    SignatureHelp,
    Definitions,
    TypeDefinitions,
    Implementations,
    IncomingCalls,
    OutgoingCalls,
    References,
    LspReferences,
    Problems,
    Bookmarks,
    SourceControl,
    Branches,
    Tasks,
    TerminalCommandHistory,
    CommandPalette,
}

/// The name of the panel that takes the keys.
pub open spec fn focus_text(focus: FocusPanel) -> Seq<char> {
    match focus {
        FocusPanel::Explorer => "explorer"@,
        FocusPanel::Editor => "editor"@,
        FocusPanel::Terminal => "terminal"@,
    }
}

pub fn focus_name(focus: FocusPanel) -> (name: &'static str)
    ensures
        name@ == focus_text(focus),
{
    match focus {
        FocusPanel::Explorer => "explorer",
        FocusPanel::Editor => "editor",
        FocusPanel::Terminal => "terminal",
    }
}

/// What the user is asked for.
pub open spec fn prompt_text(kind: PromptKind) -> Seq<char> {
    match kind {
        PromptKind::NewFile => "new file"@,
        PromptKind::NewDir => "new folder"@,
        PromptKind::Rename => "rename"@,
        PromptKind::DeletePaths => "delete: type yes"@,
        PromptKind::ExplorerFilter => "explorer filter"@,
        PromptKind::OpenFolder => "open folder"@,
        PromptKind::Search => "find"@,
        PromptKind::ReplaceFind { all: true } => "replace all: find"@,
        PromptKind::ReplaceFind { all: false } => "replace: find"@,
        PromptKind::ReplaceWith { all: true } => "replace all: with"@,
        PromptKind::ReplaceWith { all: false } => "replace: with"@,
        PromptKind::WorkspaceReplaceFind => "replace files: find"@,
        PromptKind::WorkspaceReplaceWith => "replace files: with"@,
        PromptKind::RenameSymbol => "rename symbol"@,
        PromptKind::SaveAs => "save as"@,
        PromptKind::SaveAsClose => "save as then close"@,
        PromptKind::CreateGitBranch => "create branch"@,
        PromptKind::CommitStagedSourceControlChanges => "commit staged: message"@,
        PromptKind::CommitAllSourceControlChanges => "commit all: message"@,
        PromptKind::DiscardSourceControlPath => "discard: type discard"@,
        PromptKind::DiscardAllSourceControlChanges => "discard all: type discard"@,
        PromptKind::TerminalSearch => "find terminal"@,
        PromptKind::RunTerminalCommand => "run terminal command"@,
        PromptKind::RenameTerminal => "rename terminal"@,
        PromptKind::GotoLine => "go to line"@,
        PromptKind::QuitDirty => "unsaved: type quit"@,
    }
}

pub fn prompt_title(kind: PromptKind) -> (name: &'static str)
    ensures
        name@ == prompt_text(kind),
{
    match kind {
        PromptKind::NewFile => "new file",
        PromptKind::NewDir => "new folder",
        PromptKind::Rename => "rename",
        PromptKind::DeletePaths => "delete: type yes",
        PromptKind::ExplorerFilter => "explorer filter",
        PromptKind::OpenFolder => "open folder",
        PromptKind::Search => "find",
        PromptKind::ReplaceFind { all: true } => "replace all: find",
        PromptKind::ReplaceFind { all: false } => "replace: find",
        PromptKind::ReplaceWith { all: true } => "replace all: with",
        PromptKind::ReplaceWith { all: false } => "replace: with",
        PromptKind::WorkspaceReplaceFind => "replace files: find",
        PromptKind::WorkspaceReplaceWith => "replace files: with",
        PromptKind::RenameSymbol => "rename symbol",
        PromptKind::SaveAs => "save as",
        PromptKind::SaveAsClose => "save as then close",
        PromptKind::CreateGitBranch => "create branch",
        PromptKind::CommitStagedSourceControlChanges => "commit staged: message",
        PromptKind::CommitAllSourceControlChanges => "commit all: message",
        PromptKind::DiscardSourceControlPath => "discard: type discard",
        PromptKind::DiscardAllSourceControlChanges => "discard all: type discard",
        PromptKind::TerminalSearch => "find terminal",
        PromptKind::RunTerminalCommand => "run terminal command",
        PromptKind::RenameTerminal => "rename terminal",
        PromptKind::GotoLine => "go to line",
        PromptKind::QuitDirty => "unsaved: type quit",
    }
}

/// The title of the quick panel.
pub open spec fn quick_title_text(kind: QuickPanelKind) -> Seq<char> {
    match kind {
        QuickPanelKind::OpenFile => " Quick Open  Ctrl-P "@,
        QuickPanelKind::Completions => " Suggestions  Ctrl-Space "@,
        QuickPanelKind::CodeActions => " Code Actions "@,
        QuickPanelKind::DirtyClose => " Unsaved Changes  Ctrl-W "@,
        QuickPanelKind::ExplorerContextMenu => " Explorer Context Menu  Right Click "@,
        QuickPanelKind::EditorContextMenu => " Editor Context Menu  Right Click "@,
        QuickPanelKind::TerminalContextMenu => " Terminal Context Menu  Right Click "@,
        QuickPanelKind::WorkspaceSearch => " Search Workspace  Ctrl-Shift-F "@,
        QuickPanelKind::DocumentSymbols => " Go to Symbol in File  Ctrl-Shift-O "@,
        QuickPanelKind::WorkspaceSymbols => " Go to Symbol in Workspace  Ctrl-T "@,
        QuickPanelKind::LspHover => " LSP Hover "@,
        QuickPanelKind::SignatureHelp => " Signature Help  Ctrl-Shift-Space "@,
        QuickPanelKind::Definitions => " Go to Definition  Ctrl-] "@,
        QuickPanelKind::TypeDefinitions => " Go to Type Definition "@,
        QuickPanelKind::Implementations => " Go to Implementation "@,
        QuickPanelKind::IncomingCalls => " Incoming Calls "@,
        QuickPanelKind::OutgoingCalls => " Outgoing Calls "@,
        QuickPanelKind::References => " Find References  Ctrl-R "@,
        QuickPanelKind::LspReferences => " LSP References  Ctrl-R "@,
        QuickPanelKind::Problems => " Problems "@,
        QuickPanelKind::Bookmarks => " Bookmarks "@,
        QuickPanelKind::SourceControl => " Source Control "@,
        QuickPanelKind::Branches => " Git Branches "@,
        QuickPanelKind::Tasks => " Run Task  Ctrl-Shift-B "@,
        QuickPanelKind::TerminalCommandHistory => " Recent Terminal Commands "@,
        QuickPanelKind::CommandPalette => " Command Palette  F1 / Ctrl-Shift-P "@,
    }
}

pub fn quick_title(kind: QuickPanelKind) -> (name: &'static str)
    ensures
        name@ == quick_title_text(kind),
{
    match kind {
        QuickPanelKind::OpenFile => " Quick Open  Ctrl-P ",
        QuickPanelKind::Completions => " Suggestions  Ctrl-Space ",
        QuickPanelKind::CodeActions => " Code Actions ",
        QuickPanelKind::DirtyClose => " Unsaved Changes  Ctrl-W ",
        QuickPanelKind::ExplorerContextMenu => " Explorer Context Menu  Right Click ",
        QuickPanelKind::EditorContextMenu => " Editor Context Menu  Right Click ",
        QuickPanelKind::TerminalContextMenu => " Terminal Context Menu  Right Click ",
        QuickPanelKind::WorkspaceSearch => " Search Workspace  Ctrl-Shift-F ",
        QuickPanelKind::DocumentSymbols => " Go to Symbol in File  Ctrl-Shift-O ",
        QuickPanelKind::WorkspaceSymbols => " Go to Symbol in Workspace  Ctrl-T ",
        QuickPanelKind::LspHover => " LSP Hover ",
        QuickPanelKind::SignatureHelp => " Signature Help  Ctrl-Shift-Space ",
        QuickPanelKind::Definitions => " Go to Definition  Ctrl-] ",
        QuickPanelKind::TypeDefinitions => " Go to Type Definition ",
        QuickPanelKind::Implementations => " Go to Implementation ",
        QuickPanelKind::IncomingCalls => " Incoming Calls ",
        QuickPanelKind::OutgoingCalls => " Outgoing Calls ",
        QuickPanelKind::References => " Find References  Ctrl-R ",
        QuickPanelKind::LspReferences => " LSP References  Ctrl-R ",
        QuickPanelKind::Problems => " Problems ",
        QuickPanelKind::Bookmarks => " Bookmarks ",
        QuickPanelKind::SourceControl => " Source Control ",
        QuickPanelKind::Branches => " Git Branches ",
        QuickPanelKind::Tasks => " Run Task  Ctrl-Shift-B ",
        QuickPanelKind::TerminalCommandHistory => " Recent Terminal Commands ",
        QuickPanelKind::CommandPalette => " Command Palette  F1 / Ctrl-Shift-P ",
    }
}

/// What the quick panel says where it lists nothing.
pub open spec fn quick_empty_text(kind: QuickPanelKind) -> Seq<char> {
    match kind {
        QuickPanelKind::OpenFile => "Type a file name or path fragment."@,
        QuickPanelKind::Completions => "No suggestions found for the current editor cursor."@,
        QuickPanelKind::CodeActions => "No code actions returned for the current editor cursor."@,
        QuickPanelKind::DirtyClose => "The tab is no longer open or no close action matches the query."@,
        QuickPanelKind::ExplorerContextMenu => "No explorer actions match the current query."@,
        QuickPanelKind::EditorContextMenu => "No editor actions match the current query."@,
        QuickPanelKind::TerminalContextMenu => "No terminal actions match the current query."@,
        QuickPanelKind::WorkspaceSearch => "Type text to search across workspace files."@,
        QuickPanelKind::DocumentSymbols => "No symbols found in the active editor buffer."@,
        QuickPanelKind::WorkspaceSymbols => "Type a symbol name, or clear the query to list workspace symbols."@,
        QuickPanelKind::LspHover => "No language-server hover content matches the current query."@,
        QuickPanelKind::SignatureHelp => "No language-server signature help matches the current query."@,
        QuickPanelKind::Definitions => "No definition found for the current query."@,
        QuickPanelKind::TypeDefinitions => "No type definitions match the current query."@,
        QuickPanelKind::Implementations => "No implementations match the current query."@,
        QuickPanelKind::IncomingCalls => "No incoming calls match the current query."@,
        QuickPanelKind::OutgoingCalls => "No outgoing calls match the current query."@,
        QuickPanelKind::References => "No whole-word references found for the current query."@,
        QuickPanelKind::LspReferences => "No language-server references match the current query."@,
        QuickPanelKind::Problems => "No problems collected. Run Workspace Check or Run LSP Diagnostics from the command palette."@,
        QuickPanelKind::Bookmarks => "No editor bookmarks yet."@,
        QuickPanelKind::SourceControl => "No Git changes found, or this workspace is not inside a Git repository."@,
        QuickPanelKind::Branches => "No local Git branches found, or this workspace is not inside a Git repository."@,
        QuickPanelKind::Tasks => "No tasks detected from .vscode/tasks.json, package.json, Cargo.toml, Makefile, go.mod, or pyproject.toml."@,
        QuickPanelKind::TerminalCommandHistory => "No recent tscode-submitted terminal commands yet."@,
        QuickPanelKind::CommandPalette => "Type a command name."@,
    }
}

pub fn quick_empty(kind: QuickPanelKind) -> (name: &'static str)
    ensures
        name@ == quick_empty_text(kind),
{
    match kind {
        QuickPanelKind::OpenFile => "Type a file name or path fragment.",
        QuickPanelKind::Completions => "No suggestions found for the current editor cursor.",
        QuickPanelKind::CodeActions => "No code actions returned for the current editor cursor.",
        QuickPanelKind::DirtyClose => "The tab is no longer open or no close action matches the query.",
        QuickPanelKind::ExplorerContextMenu => "No explorer actions match the current query.",
        QuickPanelKind::EditorContextMenu => "No editor actions match the current query.",
        QuickPanelKind::TerminalContextMenu => "No terminal actions match the current query.",
        QuickPanelKind::WorkspaceSearch => "Type text to search across workspace files.",
        QuickPanelKind::DocumentSymbols => "No symbols found in the active editor buffer.",
        QuickPanelKind::WorkspaceSymbols => "Type a symbol name, or clear the query to list workspace symbols.",
        QuickPanelKind::LspHover => "No language-server hover content matches the current query.",
        QuickPanelKind::SignatureHelp => "No language-server signature help matches the current query.",
        QuickPanelKind::Definitions => "No definition found for the current query.",
        QuickPanelKind::TypeDefinitions => "No type definitions match the current query.",
        QuickPanelKind::Implementations => "No implementations match the current query.",
        QuickPanelKind::IncomingCalls => "No incoming calls match the current query.",
        QuickPanelKind::OutgoingCalls => "No outgoing calls match the current query.",
        QuickPanelKind::References => "No whole-word references found for the current query.",
        QuickPanelKind::LspReferences => "No language-server references match the current query.",
        QuickPanelKind::Problems => "No problems collected. Run Workspace Check or Run LSP Diagnostics from the command palette.",
        QuickPanelKind::Bookmarks => "No editor bookmarks yet.",
        QuickPanelKind::SourceControl => "No Git changes found, or this workspace is not inside a Git repository.",
        QuickPanelKind::Branches => "No local Git branches found, or this workspace is not inside a Git repository.",
        QuickPanelKind::Tasks => "No tasks detected from .vscode/tasks.json, package.json, Cargo.toml, Makefile, go.mod, or pyproject.toml.",
        QuickPanelKind::TerminalCommandHistory => "No recent tscode-submitted terminal commands yet.",
        QuickPanelKind::CommandPalette => "Type a command name.",
    }
}

/// Which mouse events a terminal program takes.
pub open spec fn mouse_text(mode: MouseProtocolMode) -> Seq<char> {
    match mode {
        MouseProtocolMode::Off => ""@,
        MouseProtocolMode::Press => " mouse:press"@,
        MouseProtocolMode::PressRelease => " mouse:press"@,
        MouseProtocolMode::ButtonMotion => " mouse:drag"@,
        MouseProtocolMode::AnyMotion => " mouse:any"@,
    }
}

pub fn terminal_mouse_label(mode: MouseProtocolMode) -> (name: &'static str)
    ensures
        name@ == mouse_text(mode),
{
    match mode {
        MouseProtocolMode::Off => "",
        MouseProtocolMode::Press => " mouse:press",
        MouseProtocolMode::PressRelease => " mouse:press",
        MouseProtocolMode::ButtonMotion => " mouse:drag",
        MouseProtocolMode::AnyMotion => " mouse:any",
    }
}

/// The name of what the mouse is over.
pub open spec fn hover_text(hover: HoverTarget) -> Seq<char> {
    match hover {
        HoverTarget::Nothing => "none"@,
        HoverTarget::Explorer => "explorer"@,
        HoverTarget::ExplorerRow(index) => "explorer row "@ + text::decimal(index as nat),
        HoverTarget::Outline => "outline"@,
        HoverTarget::OutlineRow(index) => "outline row "@ + text::decimal(index as nat),
        HoverTarget::Editor => "editor"@,
        HoverTarget::EditorPane(index) => "editor pane "@ + text::decimal(index as nat),
        HoverTarget::Tab(index) => "tab "@ + text::decimal(index as nat),
        HoverTarget::TabClose(index) => "tab close "@ + text::decimal(index as nat),
        HoverTarget::TerminalTab(index) => "terminal tab "@ + text::decimal(index as nat),
        HoverTarget::TerminalTabClose(index) => "terminal close "@ + text::decimal(index as nat),
        HoverTarget::TerminalNew => "terminal new"@,
        HoverTarget::TerminalResize => "terminal resize"@,
        HoverTarget::QuickRow(index) => "quick row "@ + text::decimal(index as nat),
        HoverTarget::Terminal => "terminal"@,
        HoverTarget::TerminalInput => "terminal input"@,
    }
}

fn with_number(prefix: &str, n: usize) -> (out: String)
    ensures
        out@ == prefix@ + text::decimal(n as nat),
{
    let mut out = prefix.to_owned();
    text::push_decimal(&mut out, n as u64);
    out
}

pub fn hover_name(hover: &HoverTarget) -> (name: String)
    ensures
        name@ == hover_text(*hover),
{
    match *hover {
        HoverTarget::Nothing => "none".to_owned(),
        HoverTarget::Explorer => "explorer".to_owned(),
        HoverTarget::ExplorerRow(index) => with_number("explorer row ", index),
        HoverTarget::Outline => "outline".to_owned(),
        HoverTarget::OutlineRow(index) => with_number("outline row ", index),
        HoverTarget::Editor => "editor".to_owned(),
        HoverTarget::EditorPane(index) => with_number("editor pane ", index),
        HoverTarget::Tab(index) => with_number("tab ", index),
        HoverTarget::TabClose(index) => with_number("tab close ", index),
        HoverTarget::TerminalTab(index) => with_number("terminal tab ", index),
        HoverTarget::TerminalTabClose(index) => with_number("terminal close ", index),
        HoverTarget::TerminalNew => "terminal new".to_owned(),
        HoverTarget::TerminalResize => "terminal resize".to_owned(),
        HoverTarget::QuickRow(index) => with_number("quick row ", index),
        HoverTarget::Terminal => "terminal".to_owned(),
        HoverTarget::TerminalInput => "terminal input".to_owned(),
    }
}

/// A size in bytes, or rounded down in units of 1024 bytes or their square.
pub open spec fn size_text(size: u64) -> Seq<char> {
    if size >= 1048576 {
        text::decimal((size / 1048576) as nat) + "M"@
    } else if size >= 1024 {
        text::decimal((size / 1024) as nat) + "K"@
    } else {
        text::decimal(size as nat) + "B"@
    }
}

pub fn format_size(size: u64) -> (out: String)
    ensures
        out@ == size_text(size),
{
    if size >= 1048576 {
        let mut out = text::decimal_of(size / 1048576);
        out.append("M");
        out
    } else if size >= 1024 {
        let mut out = text::decimal_of(size / 1024);
        out.append("K");
        out
    } else {
        let mut out = text::decimal_of(size);
        out.append("B");
        out
    }
}

/// What stands at the right end of a row of the explorer: the size of a file,
/// the mark of its change, and that it is read-only.
pub open spec fn node_suffix(
    is_dir: bool,
    size: Option<u64>,
    readonly: bool,
    git_marker: Option<Seq<char>>,
) -> Seq<char> {
    let git = match git_marker {
        Some(marker) => " "@ + marker,
        None => Seq::empty(),
    };
    let ro = if readonly {
        " ro"@
    } else {
        Seq::empty()
    };
    if is_dir {
        git + ro
    } else {
        let shown = match size {
            Some(size) => size_text(size),
            None => "?"@,
        };
        " "@ + shown + git + ro
    }
}

pub fn explorer_node_suffix(node: &VisibleNode, git_marker: &Option<String>) -> (out: String)
    ensures
        out@ == node_suffix(node.is_dir, node.size, node.readonly, text::maybe(*git_marker)),
{
    let mut git = String::new();
    if let Some(marker) = git_marker {
        git.append(" ");
        git.append(marker);
        proof {
            assert(git@ =~= " "@ + marker@);
        }
    }
    let ro = if node.readonly {
        " ro"
    } else {
        ""
    };
    proof {
        reveal_strlit("");
        assert(""@ =~= Seq::<char>::empty());
    }
    let mut out = String::new();
    if !node.is_dir {
        out.append(" ");
        match node.size {
            Some(size) => {
                out.append(&format_size(size));
            },
            None => {
                out.append("?");
            },
        }
    }
    out.append(&git);
    out.append(ro);
    proof {
        assert(out@ =~= node_suffix(
            node.is_dir,
            node.size,
            node.readonly,
            text::maybe(*git_marker),
        ));
    }
    out
}

/// The name of a file, or else its path, or else a word in brackets.
pub open spec fn shown_name(path: Seq<PartView>, text: Option<Seq<char>>) -> Seq<char> {
    let name = match path::last_name(path) {
        Some(bytes) => path::utf8(bytes),
        None => None,
    };
    match name {
        Some(name) => name,
        None => match text {
            Some(text) => text,
            None => "[path]"@,
        },
    }
}

/// The name of a file; `text` is its path as text, where it is text.
pub fn display_name(path: &FsPath, text: &Option<String>) -> (name: String)
    ensures
        name@ == shown_name(path@, text::maybe(*text)),
{
    let own = match path.file_name() {
        Some(bytes) => text::utf8_text(bytes),
        None => None,
    };
    match own {
        Some(name) => name,
        None => match text {
            Some(text) => text.clone(),
            None => "[path]".to_owned(),
        },
    }
}

/// A directory as seen from the workspace: a dot for the workspace itself, the
/// way to a directory in it as it is written, and the name of any other one.
pub open spec fn cwd_text(
    cwd: Seq<PartView>,
    display: Seq<char>,
    root: Seq<PartView>,
    platform: Platform,
) -> Seq<char> {
    if cwd == root {
        "."@
    } else if root.is_prefix_of(cwd) {
        with_slashes(path::text_behind(display, cwd, root.len(), platform))
    } else {
        let name = match path::last_name(cwd) {
            Some(bytes) => path::utf8(bytes),
            None => None,
        };
        match name {
            Some(name) => name,
            None => "/"@,
        }
    }
}

/// What a terminal's directory is called; `display` is its path as text.
pub fn terminal_cwd_label(cwd: &FsPath, display: &str, root: &FsPath, platform: Platform) -> (out:
    String)
    ensures
        out@ == cwd_text(cwd@, display@, root@, platform),
{
    if cwd.same(root) {
        return ".".to_owned();
    }
    if cwd.starts_with(root) {
        return cwd.text_after(display, root.parts.len(), platform);
    }
    let name = match cwd.file_name() {
        Some(bytes) => text::utf8_text(bytes),
        None => None,
    };
    match name {
        Some(name) => name,
        None => "/".to_owned(),
    }
}

/// A path as seen from the workspace, where it lies in it, and as it is written.
pub open spec fn relative_text(
    path: Seq<PartView>,
    root: Seq<PartView>,
    display: Seq<char>,
    platform: Platform,
) -> Seq<char> {
    if root.is_prefix_of(path) {
        with_slashes(path::text_behind(display, path, root.len(), platform))
    } else {
        display
    }
}

pub fn relative_label(path: &FsPath, root: &FsPath, display: &str, platform: Platform) -> (out:
    String)
    ensures
        out@ == relative_text(path@, root@, display@, platform),
{
    if path.starts_with(root) {
        path.text_after(display, root.parts.len(), platform)
    } else {
        display.to_owned()
    }
}

/// The prompts that destroy something name the word that confirms it, and those for
/// replacing tell the text to find from the text to put in its place.
pub proof fn prompts_say_what_they_ask_for(kind: PromptKind)
    ensures
        kind is DeletePaths ==> prompt_text(kind) == "delete: type yes"@,
        kind is DiscardSourceControlPath ==> prompt_text(kind) == "discard: type discard"@,
        kind is DiscardAllSourceControlChanges ==> prompt_text(kind)
            == "discard all: type discard"@,
        kind is QuitDirty ==> prompt_text(kind) == "unsaved: type quit"@,
        kind == (PromptKind::ReplaceFind { all: true }) ==> prompt_text(kind)
            == "replace all: find"@,
        kind == (PromptKind::ReplaceFind { all: false }) ==> prompt_text(kind) == "replace: find"@,
        kind == (PromptKind::ReplaceWith { all: true }) ==> prompt_text(kind)
            == "replace all: with"@,
        kind == (PromptKind::ReplaceWith { all: false }) ==> prompt_text(kind) == "replace: with"@,
        kind is Rename ==> prompt_text(kind) == "rename"@,
        kind is RenameSymbol ==> prompt_text(kind) == "rename symbol"@,
        kind is NewFile ==> prompt_text(kind) == "new file"@,
        kind is NewDir ==> prompt_text(kind) == "new folder"@,
        kind is Search ==> prompt_text(kind) == "find"@,
        kind is GotoLine ==> prompt_text(kind) == "go to line"@,
        kind is SaveAs ==> prompt_text(kind) == "save as"@,
{
}

/// A target of the mouse with a number is told by its name and that number.
pub proof fn targets_of_the_mouse_are_told_by_name_and_number(n: usize)
    ensures
        hover_text(HoverTarget::ExplorerRow(n)) == "explorer row "@ + text::decimal(n as nat),
        hover_text(HoverTarget::Tab(n)) == "tab "@ + text::decimal(n as nat),
        hover_text(HoverTarget::TabClose(n)) == "tab close "@ + text::decimal(n as nat),
        hover_text(HoverTarget::TerminalTab(n)) == "terminal tab "@ + text::decimal(n as nat),
        hover_text(HoverTarget::TerminalTabClose(n)) == "terminal close "@ + text::decimal(
            n as nat,
        ),
        hover_text(HoverTarget::QuickRow(n)) == "quick row "@ + text::decimal(n as nat),
        hover_text(HoverTarget::EditorPane(n)) == "editor pane "@ + text::decimal(n as nat),
        hover_text(HoverTarget::OutlineRow(n)) == "outline row "@ + text::decimal(n as nat),
{
}

/// The directory of the workspace is a dot, one outside it is told by its name, and the
/// name of a file is its own.
pub proof fn places_are_told_by_their_names(
    cwd: Seq<PartView>,
    display: Seq<char>,
    root: Seq<PartView>,
    name: Seq<char>,
    platform: Platform,
)
    ensures
        cwd_text(root, display, root, platform) == seq!['.'],
        !root.is_prefix_of(cwd) && cwd.len() > 0 && cwd.last() == PartView::Normal(
            vstd::utf8::encode_utf8(name),
        ) ==> cwd_text(cwd, display, root, platform) == name,
        cwd.len() > 0 && cwd.last() == PartView::Normal(vstd::utf8::encode_utf8(name))
            ==> shown_name(cwd, Some(display)) == name,
        !root.is_prefix_of(cwd) ==> relative_text(cwd, root, display, platform) == display,
{
    reveal_strlit(".");
    assert("."@ =~= seq!['.']);
    if cwd == root {
        assert(root.subrange(0, root.len() as int) =~= root);
    }
}

/// A panel is headed by what it lists, and by the keys that open it where there are any.
pub proof fn panels_are_headed_by_what_they_list(kind: QuickPanelKind)
    ensures
        kind is OpenFile ==> quick_title_text(kind) == " Quick Open  Ctrl-P "@,
        kind is Completions ==> quick_title_text(kind) == " Suggestions  Ctrl-Space "@,
        kind is CodeActions ==> quick_title_text(kind) == " Code Actions "@,
        kind is DirtyClose ==> quick_title_text(kind) == " Unsaved Changes  Ctrl-W "@,
        kind is ExplorerContextMenu ==> quick_title_text(kind) == " Explorer Context Menu  Right Click "@,
        kind is EditorContextMenu ==> quick_title_text(kind) == " Editor Context Menu  Right Click "@,
        kind is TerminalContextMenu ==> quick_title_text(kind) == " Terminal Context Menu  Right Click "@,
        kind is WorkspaceSearch ==> quick_title_text(kind) == " Search Workspace  Ctrl-Shift-F "@,
        kind is DocumentSymbols ==> quick_title_text(kind) == " Go to Symbol in File  Ctrl-Shift-O "@,
        kind is WorkspaceSymbols ==> quick_title_text(kind) == " Go to Symbol in Workspace  Ctrl-T "@,
        kind is LspHover ==> quick_title_text(kind) == " LSP Hover "@,
        kind is SignatureHelp ==> quick_title_text(kind) == " Signature Help  Ctrl-Shift-Space "@,
        kind is Definitions ==> quick_title_text(kind) == " Go to Definition  Ctrl-] "@,
        kind is TypeDefinitions ==> quick_title_text(kind) == " Go to Type Definition "@,
        kind is Implementations ==> quick_title_text(kind) == " Go to Implementation "@,
        kind is IncomingCalls ==> quick_title_text(kind) == " Incoming Calls "@,
        kind is OutgoingCalls ==> quick_title_text(kind) == " Outgoing Calls "@,
        kind is References ==> quick_title_text(kind) == " Find References  Ctrl-R "@,
        kind is LspReferences ==> quick_title_text(kind) == " LSP References  Ctrl-R "@,
        kind is Problems ==> quick_title_text(kind) == " Problems "@,
        kind is Bookmarks ==> quick_title_text(kind) == " Bookmarks "@,
        kind is SourceControl ==> quick_title_text(kind) == " Source Control "@,
        kind is Branches ==> quick_title_text(kind) == " Git Branches "@,
        kind is Tasks ==> quick_title_text(kind) == " Run Task  Ctrl-Shift-B "@,
        kind is TerminalCommandHistory ==> quick_title_text(kind) == " Recent Terminal Commands "@,
        kind is CommandPalette ==> quick_title_text(kind) == " Command Palette  F1 / Ctrl-Shift-P "@,
{
}

/// A panel with nothing in it says what there is none of, or what to type.
pub proof fn empty_panels_say_what_is_missing(kind: QuickPanelKind)
    ensures
        kind is OpenFile ==> quick_empty_text(kind) == "Type a file name or path fragment."@,
        kind is Completions ==> quick_empty_text(kind) == "No suggestions found for the current editor cursor."@,
        kind is CodeActions ==> quick_empty_text(kind) == "No code actions returned for the current editor cursor."@,
        kind is DirtyClose ==> quick_empty_text(kind) == "The tab is no longer open or no close action matches the query."@,
        kind is ExplorerContextMenu ==> quick_empty_text(kind) == "No explorer actions match the current query."@,
        kind is EditorContextMenu ==> quick_empty_text(kind) == "No editor actions match the current query."@,
        kind is TerminalContextMenu ==> quick_empty_text(kind) == "No terminal actions match the current query."@,
        kind is WorkspaceSearch ==> quick_empty_text(kind) == "Type text to search across workspace files."@,
        kind is DocumentSymbols ==> quick_empty_text(kind) == "No symbols found in the active editor buffer."@,
        kind is WorkspaceSymbols ==> quick_empty_text(kind) == "Type a symbol name, or clear the query to list workspace symbols."@,
        kind is LspHover ==> quick_empty_text(kind) == "No language-server hover content matches the current query."@,
        kind is SignatureHelp ==> quick_empty_text(kind) == "No language-server signature help matches the current query."@,
        kind is Definitions ==> quick_empty_text(kind) == "No definition found for the current query."@,
        kind is TypeDefinitions ==> quick_empty_text(kind) == "No type definitions match the current query."@,
        kind is Implementations ==> quick_empty_text(kind) == "No implementations match the current query."@,
        kind is IncomingCalls ==> quick_empty_text(kind) == "No incoming calls match the current query."@,
        kind is OutgoingCalls ==> quick_empty_text(kind) == "No outgoing calls match the current query."@,
        kind is References ==> quick_empty_text(kind) == "No whole-word references found for the current query."@,
        kind is LspReferences ==> quick_empty_text(kind) == "No language-server references match the current query."@,
        kind is Problems ==> quick_empty_text(kind) == "No problems collected. Run Workspace Check or Run LSP Diagnostics from the command palette."@,
        kind is Bookmarks ==> quick_empty_text(kind) == "No editor bookmarks yet."@,
        kind is SourceControl ==> quick_empty_text(kind) == "No Git changes found, or this workspace is not inside a Git repository."@,
        kind is Branches ==> quick_empty_text(kind) == "No local Git branches found, or this workspace is not inside a Git repository."@,
        kind is Tasks ==> quick_empty_text(kind) == "No tasks detected from .vscode/tasks.json, package.json, Cargo.toml, Makefile, go.mod, or pyproject.toml."@,
        kind is TerminalCommandHistory ==> quick_empty_text(kind) == "No recent tscode-submitted terminal commands yet."@,
        kind is CommandPalette ==> quick_empty_text(kind) == "Type a command name."@,
{
}

} // verus!
