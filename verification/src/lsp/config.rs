//! Which language server serves a file.

use vstd::prelude::*;

use crate::path::components;
use crate::path::Platform;
use crate::text;

verus! {

/// How a language server is started, and how it names the language.
#[derive(Debug, Clone, PartialEq, Eq)]
pub struct LanguageServerConfig {
    pub name: String,
    pub command: String,
    pub args: Vec<String>,
    pub language_id: String,
}

pub struct ConfigView {
    pub name: Seq<char>,
    pub command: Seq<char>,
    pub args: Seq<Seq<char>>,
    pub language_id: Seq<char>,
}

impl View for LanguageServerConfig {
    type V = ConfigView;

    open spec fn view(&self) -> ConfigView {
        ConfigView {
            name: self.name@,
            command: self.command@,
            args: text::texts(self.args@),
            language_id: self.language_id@,
        }
    }
}

/// What the environment says of language servers: the values of
/// `TSCODE_LSP_COMMAND`, `TSCODE_LSP_LANGUAGE_ID` and `TSCODE_LSP_NAME`.
#[derive(Debug, Clone, PartialEq, Eq)]
pub struct LspSettings {
    pub command: Option<String>,
    pub language_id: Option<String>,
    pub name: Option<String>,
}

pub struct SettingsView {
    pub command: Option<Seq<char>>,
    pub language_id: Option<Seq<char>>,
    pub name: Option<Seq<char>>,
}

impl View for LspSettings {
    type V = SettingsView;

    open spec fn view(&self) -> SettingsView {
        SettingsView {
            command: text::maybe(self.command),
            language_id: text::maybe(self.language_id),
            name: text::maybe(self.name),
        }
    }
}

/// The value of an optional configuration.
pub open spec fn maybe_config(config: Option<LanguageServerConfig>) -> Option<ConfigView> {
    match config {
        Some(c) => Some(c@),
        None => None,
    }
}

/// The language of the files with an extension in lower case.
pub open spec fn language_of(extension: Seq<char>) -> Option<Seq<char>> {
    if extension == "rs"@ {
        Some("rust"@)
    } else if extension == "py"@ || extension == "pyw"@ {
        Some("python"@)
    } else if extension == "ts"@ {
        Some("typescript"@)
    } else if extension == "tsx"@ {
        Some("typescriptreact"@)
    } else if extension == "js"@ || extension == "mjs"@ || extension == "cjs"@ {
        Some("javascript"@)
    } else if extension == "jsx"@ {
        Some("javascriptreact"@)
    } else if extension == "go"@ {
        Some("go"@)
    } else if extension == "c"@ {
        Some("c"@)
    } else if extension == "cc"@ || extension == "cpp"@ || extension == "cxx"@ || extension
        == "hpp"@ || extension == "hh"@ || extension == "hxx"@ || extension == "h"@ {
        Some("cpp"@)
    } else {
        None
    }
}

/// The language of a file, by the extension of its path.
pub open spec fn path_language(path: Seq<char>, platform: Platform) -> Option<Seq<char>> {
    match components::extension_text(path, platform) {
        Some(extension) => language_of(text::ascii_lowercase(extension)),
        None => None,
    }
}

/// A server that goes by the name of its command.
pub open spec fn server(command: Seq<char>, args: Seq<Seq<char>>, language_id: Seq<char>) -> ConfigView {
    ConfigView { name: command, command, args, language_id }
}

/// The server that is used for a language unless the environment names one.
pub open spec fn builtin_server(language_id: Seq<char>) -> ConfigView {
    if language_id == "rust"@ {
        server("rust-analyzer"@, Seq::empty(), language_id)
    } else if language_id == "python"@ {
        server("pyright-langserver"@, seq!["--stdio"@], language_id)
    } else if language_id == "go"@ {
        server("gopls"@, Seq::empty(), language_id)
    } else if language_id == "c"@ || language_id == "cpp"@ {
        server("clangd"@, Seq::empty(), language_id)
    } else {
        server("typescript-language-server"@, seq!["--stdio"@], language_id)
    }
}

/// The server that the environment names: the words of its command line, under
/// its own name and language or those that the command and the file suggest.
pub open spec fn settings_server(
    path: Seq<char>,
    settings: SettingsView,
    platform: Platform,
) -> Option<ConfigView> {
    match settings.command {
        None => None,
        Some(raw) => {
            let words = text::words(raw);
            if words.len() == 0 {
                None
            } else {
                let language_id = match settings.language_id {
                    Some(id) => id,
                    None => match path_language(path, platform) {
                        Some(id) => id,
                        None => "plaintext"@,
                    },
                };
                let name = match settings.name {
                    Some(name) => if text::trimmed(name).len() == 0 {
                        words[0]
                    } else {
                        name
                    },
                    None => words[0],
                };
                Some(
                    ConfigView { name, command: words[0], args: words.drop_first(), language_id },
                )
            }
        },
    }
}

/// The server for a file, if any.
pub open spec fn server_for(path: Seq<char>, settings: SettingsView, platform: Platform) -> Option<
    ConfigView,
> {
    match settings_server(path, settings, platform) {
        Some(config) => Some(config),
        None => match path_language(path, platform) {
            Some(language_id) => Some(builtin_server(language_id)),
            None => None,
        },
    }
}

/// The words of a command line.
pub fn split_command_words(command: &str) -> (words: Vec<String>)
    ensures
        text::texts(words@) == text::words(command@),
{
    text::words_of(command)
}

/// The language of a file, by the extension of its path.
pub fn default_language_id(path: &str, platform: Platform) -> (id: Option<&'static str>)
    ensures
        id is Some <==> path_language(path@, platform) is Some,
        id matches Some(language) ==> path_language(path@, platform) == Some(language@),
{
    let extension = match components::extension_of_text(path, platform) {
        Some(extension) => text::to_ascii_lowercase(&extension),
        None => {
            return None;
        },
    };
    if text::same(&extension, "rs") {
        Some("rust")
    } else if text::same(&extension, "py") || text::same(&extension, "pyw") {
        Some("python")
    } else if text::same(&extension, "ts") {
        Some("typescript")
    } else if text::same(&extension, "tsx") {
        Some("typescriptreact")
    } else if text::same(&extension, "js") || text::same(&extension, "mjs") || text::same(
        &extension,
        "cjs",
    ) {
        Some("javascript")
    } else if text::same(&extension, "jsx") {
        Some("javascriptreact")
    } else if text::same(&extension, "go") {
        Some("go")
    } else if text::same(&extension, "c") {
        Some("c")
    } else if text::same(&extension, "cc") || text::same(&extension, "cpp") || text::same(
        &extension,
        "cxx",
    ) || text::same(&extension, "hpp") || text::same(&extension, "hh") || text::same(
        &extension,
        "hxx",
    ) || text::same(&extension, "h") {
        Some("cpp")
    } else {
        None
    }
}

impl LanguageServerConfig {
    /// A server that goes by the name of its command, started with `--stdio`
    /// where it asks for that.
    pub fn new(command: &str, stdio: bool, language_id: &str) -> (config: LanguageServerConfig)
        ensures
            config@ == server(
                command@,
                if stdio {
                    seq!["--stdio"@]
                } else {
                    Seq::empty()
                },
                language_id@,
            ),
    {
        let mut args: Vec<String> = Vec::new();
        if stdio {
            args.push("--stdio".to_owned());
            assert(text::texts(args@) =~= seq!["--stdio"@]);
        } else {
            assert(text::texts(args@) =~= Seq::<Seq<char>>::empty());
        }
        LanguageServerConfig {
            name: command.to_owned(),
            command: command.to_owned(),
            args,
            language_id: language_id.to_owned(),
        }
    }
}

/// The server that the environment names for a file.
pub fn env_language_server(path: &str, settings: &LspSettings, platform: Platform) -> (config:
    Option<LanguageServerConfig>)
    ensures
        maybe_config(config) == settings_server(path@, settings@, platform),
{
    let raw = match &settings.command {
        Some(raw) => raw,
        None => {
            return None;
        },
    };
    let mut args = split_command_words(raw);
    let ghost words = text::words(raw@);
    assert(args@.len() == text::texts(args@).len());
    if args.len() == 0 {
        return None;
    }
    let ghost all = args@;
    let command = args.remove(0);
    proof {
        assert(command@ == text::texts(all)[0]);
        assert(text::texts(args@) =~= words.drop_first()) by {
            assert forall|i: int| 0 <= i < args@.len() implies text::texts(args@)[i]
                == words.drop_first()[i] by {
                assert(args@[i] == all[i + 1]);
                assert(text::texts(all)[i + 1] == all[i + 1]@);
            }
        }
    }
    let language_id = match &settings.language_id {
        Some(id) => id.clone(),
        None => match default_language_id(path, platform) {
            Some(id) => id.to_owned(),
            None => "plaintext".to_owned(),
        },
    };
    let name = match &settings.name {
        Some(name) => if text::is_blank(name) {
            command.clone()
        } else {
            name.clone()
        },
        None => command.clone(),
    };
    Some(LanguageServerConfig { name, command, args, language_id })
}

/// The server for a file: the one that the environment names, or else the
/// usual one for its extension.
pub fn language_server_for_path(path: &str, settings: &LspSettings, platform: Platform) -> (config:
    Option<LanguageServerConfig>)
    ensures
        maybe_config(config) == server_for(path@, settings@, platform),
{
    match env_language_server(path, settings, platform) {
        Some(config) => Some(config),
        None => match default_language_id(path, platform) {
            None => None,
            Some(language_id) => Some(
                if text::same(language_id, "rust") {
                    LanguageServerConfig::new("rust-analyzer", false, language_id)
                } else if text::same(language_id, "python") {
                    LanguageServerConfig::new("pyright-langserver", true, language_id)
                } else if text::same(language_id, "go") {
                    LanguageServerConfig::new("gopls", false, language_id)
                } else if text::same(language_id, "c") || text::same(language_id, "cpp") {
                    LanguageServerConfig::new("clangd", false, language_id)
                } else {
                    LanguageServerConfig::new("typescript-language-server", true, language_id)
                },
            ),
        },
    }
}

/// The name of the server for a file.
pub fn server_name_for_path(path: &str, settings: &LspSettings, platform: Platform) -> (name: Option<
    String,
>)
    ensures
        text::maybe(name) == match server_for(path@, settings@, platform) {
            Some(config) => Some(config.name),
            None => None,
        },
{
    match language_server_for_path(path, settings, platform) {
        Some(config) => Some(config.name),
        None => None,
    }
}

/// A command line without a word in it names no server: the usual one is used.
pub proof fn blank_command_names_no_server(
    path: Seq<char>,
    settings: SettingsView,
    platform: Platform,
)
    requires
        settings.command matches Some(raw) ==> text::words(raw).len() == 0,
    ensures
        server_for(path, settings, platform) == match path_language(path, platform) {
            Some(language_id) => Some(builtin_server(language_id)),
            None => None,
        },
{
}

/// A file has the language of its extension, whatever the case of its letters; files
/// of other extensions, and files without one, have none.
pub proof fn languages_go_by_extension(extension: Seq<char>)
    ensures
        ({
            let language = language_of(extension);
            &&& extension == seq!['r', 's'] ==> language == Some("rust"@)
            &&& extension == seq!['p', 'y'] ==> language == Some("python"@)
            &&& extension == seq!['g', 'o'] ==> language == Some("go"@)
            &&& extension == seq!['t', 's'] ==> language == Some("typescript"@)
            &&& extension == seq!['t', 's', 'x'] ==> language == Some("typescriptreact"@)
            &&& extension == seq!['j', 's'] ==> language == Some("javascript"@)
            &&& extension == seq!['j', 's', 'x'] ==> language == Some("javascriptreact"@)
            &&& extension == seq!['c'] ==> language == Some("c"@)
            &&& extension == seq!['h'] ==> language == Some("cpp"@)
            &&& extension == seq!['c', 'p', 'p'] ==> language == Some("cpp"@)
            &&& extension.len() == 0 || extension.len() > 3 ==> language is None
        }),
{
    reveal_strlit("rs");
    reveal_strlit("py");
    reveal_strlit("pyw");
    reveal_strlit("ts");
    reveal_strlit("tsx");
    reveal_strlit("js");
    reveal_strlit("mjs");
    reveal_strlit("cjs");
    reveal_strlit("jsx");
    reveal_strlit("go");
    reveal_strlit("c");
    reveal_strlit("cc");
    reveal_strlit("cpp");
    reveal_strlit("cxx");
    reveal_strlit("hpp");
    reveal_strlit("hh");
    reveal_strlit("hxx");
    reveal_strlit("h");
    assert("rs"@ =~= seq!['r', 's']);
    assert("py"@ =~= seq!['p', 'y']);
    assert("pyw"@ =~= seq!['p', 'y', 'w']);
    assert("ts"@ =~= seq!['t', 's']);
    assert("tsx"@ =~= seq!['t', 's', 'x']);
    assert("js"@ =~= seq!['j', 's']);
    assert("mjs"@ =~= seq!['m', 'j', 's']);
    assert("cjs"@ =~= seq!['c', 'j', 's']);
    assert("jsx"@ =~= seq!['j', 's', 'x']);
    assert("go"@ =~= seq!['g', 'o']);
    assert("c"@ =~= seq!['c']);
    assert("cc"@ =~= seq!['c', 'c']);
    assert("cpp"@ =~= seq!['c', 'p', 'p']);
    assert("cxx"@ =~= seq!['c', 'x', 'x']);
    assert("hpp"@ =~= seq!['h', 'p', 'p']);
    assert("hh"@ =~= seq!['h', 'h']);
    assert("hxx"@ =~= seq!['h', 'x', 'x']);
    assert("h"@ =~= seq!['h']);
    assert("rs"@[0] == 'r' && "py"@[0] == 'p' && "ts"@[0] == 't' && "js"@[0] == 'j' && "go"@[0]
        == 'g' && "cc"@[0] == 'c' && "hh"@[0] == 'h');
    assert("tsx"@[0] == 't' && "pyw"@[0] == 'p' && "mjs"@[0] == 'm' && "cjs"@[0] == 'c'
        && "jsx"@[0] == 'j' && "cpp"@[0] == 'c' && "cxx"@[0] == 'c' && "hpp"@[0] == 'h'
        && "hxx"@[0] == 'h');
    assert("cjs"@[1] == 'j' && "cpp"@[1] == 'p' && "cxx"@[1] == 'x');
    assert("c"@[0] == 'c' && "h"@[0] == 'h');
    assert("rs"@.len() == 2 && "py"@.len() == 2 && "ts"@.len() == 2 && "js"@.len() == 2 && "go"@.len()
        == 2 && "cc"@.len() == 2 && "hh"@.len() == 2 && "c"@.len() == 1 && "h"@.len() == 1);
    assert("pyw"@.len() == 3 && "tsx"@.len() == 3 && "mjs"@.len() == 3 && "cjs"@.len() == 3
        && "jsx"@.len() == 3 && "cpp"@.len() == 3 && "cxx"@.len() == 3 && "hpp"@.len() == 3
        && "hxx"@.len() == 3);
}

/// A server that the environment names is started by the first word of its command
/// line, with the other words as its arguments, under the name that is given for it, or
/// else under that of the command. It is told the language that is given for it, or else
/// that of the file, or else that the file is plain text.
pub proof fn servers_are_started_by_their_command_lines(
    path: Seq<char>,
    settings: SettingsView,
    platform: Platform,
)
    requires
        settings.command is Some,
        text::words(settings.command->0).len() > 0,
    ensures
        ({
            let words = text::words(settings.command->0);
            let found = server_for(path, settings, platform);
            &&& found is Some
            &&& found->0.command == words[0]
            &&& found->0.args == words.skip(1)
            &&& settings.name is Some && text::trimmed(settings.name->0).len() > 0 ==> found->0.name
                == settings.name->0
            &&& settings.name is None ==> found->0.name == words[0]
            &&& settings.name is Some && text::trimmed(settings.name->0).len() == 0
                ==> found->0.name == words[0]
            &&& settings.language_id is None && path_language(path, platform) is None
                ==> found->0.language_id == seq!['p', 'l', 'a', 'i', 'n', 't', 'e', 'x', 't']
            &&& settings.language_id is Some ==> found->0.language_id == settings.language_id->0
            &&& settings.language_id is None && path_language(path, platform) is Some
                ==> found->0.language_id == path_language(path, platform)->0
        }),
{
    let words = text::words(settings.command->0);
    assert(words.drop_first() =~= words.skip(1));
    reveal_strlit("plaintext");
    assert("plaintext"@ =~= seq!['p', 'l', 'a', 'i', 'n', 't', 'e', 'x', 't']);
}

/// Each language has its server, and is told to it by its own name.
pub proof fn languages_have_their_servers(language: Seq<char>)
    ensures
        builtin_server(language).language_id == language,
        builtin_server(language).name == builtin_server(language).command,
        language == "rust"@ ==> builtin_server(language).command == "rust-analyzer"@
            && builtin_server(language).args.len() == 0,
        language == "python"@ ==> builtin_server(language).command == "pyright-langserver"@
            && builtin_server(language).args == seq!["--stdio"@],
        language == "go"@ ==> builtin_server(language).command == "gopls"@ && builtin_server(
            language,
        ).args.len() == 0,
        language == "c"@ || language == "cpp"@ ==> builtin_server(language).command == "clangd"@
            && builtin_server(language).args.len() == 0,
        language == "typescript"@ || language == "javascript"@ ==> builtin_server(language).command
            == "typescript-language-server"@ && builtin_server(language).args == seq!["--stdio"@],
{
    reveal_strlit("rust");
    reveal_strlit("python");
    reveal_strlit("go");
    reveal_strlit("c");
    reveal_strlit("cpp");
    reveal_strlit("typescript");
    reveal_strlit("javascript");
    assert("rust"@.len() == 4 && "python"@.len() == 6 && "go"@.len() == 2 && "c"@.len() == 1
        && "cpp"@.len() == 3 && "typescript"@.len() == 10 && "javascript"@.len() == 10);
}

} // verus!
