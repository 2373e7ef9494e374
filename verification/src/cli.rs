//! The command line.

use vstd::prelude::*;

use crate::path::FsPath;
use crate::path::PartView;
use crate::text;

verus! {

/// An argument of the command line, as text, in which what is not text is
/// replaced, and as a path.
#[derive(Debug, PartialEq, Eq)]
pub struct CliArg {
    pub text: String,
    pub path: FsPath,
}

/// What the command line asks for.
#[derive(Debug, PartialEq, Eq)]
pub enum CliAction {
    /// To open a workspace.
    Run(FsPath),
    Help,
    Version,
}

/// Why the command line cannot be served.
#[derive(Debug, PartialEq, Eq)]
pub enum CliError {
    /// There is no current directory to open.
    NoCurrentDir,
    UnknownOption(String),
}

pub struct ArgView {
    pub text: Seq<char>,
    pub path: Seq<PartView>,
}

pub enum CliView {
    Run(Seq<PartView>),
    Help,
    Version,
    NoCurrentDir,
    UnknownOption(Seq<char>),
}

pub open spec fn args_view(args: Seq<CliArg>) -> Seq<ArgView> {
    Seq::new(args.len(), |i: int| ArgView { text: args[i].text@, path: args[i].path@ })
}

pub open spec fn maybe_path(path: Option<FsPath>) -> Option<Seq<PartView>> {
    match path {
        Some(p) => Some(p@),
        None => None,
    }
}

pub open spec fn outcome_view(outcome: Result<CliAction, CliError>) -> CliView {
    match outcome {
        Ok(CliAction::Run(path)) => CliView::Run(path@),
        Ok(CliAction::Help) => CliView::Help,
        Ok(CliAction::Version) => CliView::Version,
        Err(CliError::NoCurrentDir) => CliView::NoCurrentDir,
        Err(CliError::UnknownOption(option)) => CliView::UnknownOption(option@),
    }
}

/// What a command line asks for. The current directory is opened where there is
/// no argument, and where none follows a double dash, which lets a path begin
/// with a dash; a double dash is not served without a current directory.
pub open spec fn requested(args: Seq<ArgView>, current_dir: Option<Seq<PartView>>) -> CliView {
    if args.len() == 0 {
        match current_dir {
            Some(dir) => CliView::Run(dir),
            None => CliView::NoCurrentDir,
        }
    } else {
        let first = args[0].text;
        if first == "--help"@ || first == "-h"@ {
            CliView::Help
        } else if first == "--version"@ || first == "-V"@ {
            CliView::Version
        } else if first == "--"@ {
            match current_dir {
                Some(dir) => if args.len() > 1 {
                    CliView::Run(args[1].path)
                } else {
                    CliView::Run(dir)
                },
                None => CliView::NoCurrentDir,
            }
        } else if first.len() > 0 && first[0] == '-' {
            CliView::UnknownOption(first)
        } else {
            CliView::Run(args[0].path)
        }
    }
}

/// What a command line asks for.
pub fn cli_action(args: &Vec<CliArg>, current_dir: Option<FsPath>) -> (outcome: Result<
    CliAction,
    CliError,
>)
    ensures
        outcome_view(outcome) == requested(args_view(args@), maybe_path(current_dir)),
{
    if args.len() == 0 {
        return match current_dir {
            Some(dir) => Ok(CliAction::Run(dir)),
            None => Err(CliError::NoCurrentDir),
        };
    }
    let first = &args[0].text;
    if text::same(first, "--help") || text::same(first, "-h") {
        return Ok(CliAction::Help);
    }
    if text::same(first, "--version") || text::same(first, "-V") {
        return Ok(CliAction::Version);
    }
    if text::same(first, "--") {
        return match current_dir {
            Some(dir) => if args.len() > 1 {
                Ok(CliAction::Run(args[1].path.copy()))
            } else {
                Ok(CliAction::Run(dir))
            },
            None => Err(CliError::NoCurrentDir),
        };
    }
    let chars = text::chars_of(first);
    if chars.len() > 0 && chars[0] == '-' {
        return Err(CliError::UnknownOption(first.clone()));
    }
    Ok(CliAction::Run(args[0].path.copy()))
}

impl CliError {
    pub open spec fn text(&self) -> Seq<char> {
        match self {
            CliError::NoCurrentDir => "current directory is not available"@,
            CliError::UnknownOption(option) => "unknown option '"@ + option@
                + "'; try 'tscode --help'"@,
        }
    }

    pub fn message(&self) -> (message: String)
        ensures
            message@ == self.text(),
    {
        match self {
            CliError::NoCurrentDir => "current directory is not available".to_owned(),
            CliError::UnknownOption(option) => {
                let mut message = "unknown option '".to_owned();
                message.append(option);
                message.append("'; try 'tscode --help'");
                message
            },
        }
    }
}

/// The help text of a version.
pub open spec fn help(version: Seq<char>) -> Seq<char> {
    "tscode "@ + version
        + "\n\nUSAGE:\n    tscode [path]\n    tscode --help\n    tscode --version\n\nARGS:\n    [path]    Workspace file or directory to open. Defaults to the current directory.\n\nOPTIONS:\n    -h, --help       Show this help text without entering the TUI\n    -V, --version    Show the version without entering the TUI\n\nInside the TUI, use F1 for commands, Ctrl-Q to quit, and F6 or Ctrl-` to move focus in or out of the integrated terminal."@
}

pub fn help_text(version: &str) -> (help_text: String)
    ensures
        help_text@ == help(version@),
{
    let mut out = "tscode ".to_owned();
    out.append(version);
    out.append(
        "\n\nUSAGE:\n    tscode [path]\n    tscode --help\n    tscode --version\n\nARGS:\n    [path]    Workspace file or directory to open. Defaults to the current directory.\n\nOPTIONS:\n    -h, --help       Show this help text without entering the TUI\n    -V, --version    Show the version without entering the TUI\n\nInside the TUI, use F1 for commands, Ctrl-Q to quit, and F6 or Ctrl-` to move focus in or out of the integrated terminal.",
    );
    out
}

/// What is printed for the version.
pub fn version_text(version: &str) -> (text: String)
    ensures
        text@ == "tscode "@ + version@,
{
    let mut out = "tscode ".to_owned();
    out.append(version);
    out
}

/// A command line without arguments opens the current directory; one with a path
/// opens that; a path behind a double dash is opened though it begins with a dash;
/// and any other argument that begins with one is refused by its name, but for those
/// that ask for help or for the version.
pub proof fn command_lines_open_what_they_name(
    args: Seq<ArgView>,
    current_dir: Option<Seq<PartView>>,
)
    ensures
        ({
            let asked = requested(args, current_dir);
            let first = args[0].text;
            let dashed = first.len() > 0 && first[0] == '-';
            let help = first == seq!['-', '-', 'h', 'e', 'l', 'p'] || first == seq!['-', 'h'];
            let version = first == seq!['-', '-', 'v', 'e', 'r', 's', 'i', 'o', 'n'] || first
                == seq!['-', 'V'];
            let double = first == seq!['-', '-'];
            &&& args.len() == 0 && current_dir is Some ==> asked == CliView::Run(current_dir->0)
            &&& args.len() == 0 && current_dir is None ==> asked is NoCurrentDir
            &&& args.len() > 0 && !dashed ==> asked == CliView::Run(args[0].path)
            &&& args.len() > 0 && help ==> asked is Help
            &&& args.len() > 0 && version ==> asked is Version
            &&& args.len() > 1 && double && current_dir is Some ==> asked == CliView::Run(
                args[1].path,
            )
            &&& args.len() == 1 && double && current_dir is Some ==> asked == CliView::Run(
                current_dir->0,
            )
            &&& args.len() > 0 && double && current_dir is None ==> asked is NoCurrentDir
            &&& args.len() > 0 && dashed && !help && !version && !double ==> asked
                == CliView::UnknownOption(first)
        }),
{
    reveal_strlit("--help");
    reveal_strlit("-h");
    reveal_strlit("--version");
    reveal_strlit("-V");
    reveal_strlit("--");
    assert("--help"@ =~= seq!['-', '-', 'h', 'e', 'l', 'p']);
    assert("-h"@ =~= seq!['-', 'h']);
    assert("--version"@ =~= seq!['-', '-', 'v', 'e', 'r', 's', 'i', 'o', 'n']);
    assert("-V"@ =~= seq!['-', 'V']);
    assert("--"@ =~= seq!['-', '-']);
    assert("-h"@[1] == 'h' && "-V"@[1] == 'V' && "--"@[1] == '-');
    assert("--help"@.len() == 6 && "--version"@.len() == 9);
}

/// An option that is not known is named, together with where to find the known ones; the
/// help begins with the name and the version of the program.
pub proof fn unknown_options_are_named(option: String, version: Seq<char>)
    ensures
        CliError::UnknownOption(option).text() == "unknown option '"@ + option@
            + "'; try 'tscode --help'"@,
        CliError::NoCurrentDir.text() == "current directory is not available"@,
        ({
            let head = seq!['t', 's', 'c', 'o', 'd', 'e', ' '] + version;
            head.is_prefix_of(help(version))
        }),
{
    reveal_strlit("tscode ");
    let head = seq!['t', 's', 'c', 'o', 'd', 'e', ' '] + version;
    assert("tscode "@ =~= seq!['t', 's', 'c', 'o', 'd', 'e', ' ']);
    assert(help(version).subrange(0, head.len() as int) =~= head);
}

} // verus!
