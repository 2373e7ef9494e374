//! What can be asked of a language server: for each question the exchange that
//! asks it, and what the finished exchange answers.

use vstd::prelude::*;

use crate::json;
use crate::json::Json;
use crate::json::JsonView;
use crate::lsp;
use crate::lsp::config;
use crate::lsp::config::ConfigView;
use crate::lsp::config::LanguageServerConfig;
use crate::lsp::config::LspSettings;
use crate::lsp::config::SettingsView;
use crate::lsp::exchange::ExchangeKind;
use crate::lsp::exchange::ExchangeView;
use crate::lsp::exchange::LspExchange;
use crate::lsp::exchange::Phase;
use crate::lsp::exchange::Plan;
use crate::lsp::params;
use crate::lsp::parse;
use crate::lsp::DiagnosticView;
use crate::lsp::DocumentPosition;
use crate::lsp::DocumentView;
use crate::lsp::FileText;
use crate::lsp::KnownFiles;
use crate::lsp::LspCodeAction;
use crate::lsp::LspCommand;
use crate::lsp::LspCompletion;
use crate::lsp::LspDiagnostic;
use crate::lsp::LspHover;
use crate::lsp::LspLocation;
use crate::lsp::LspTextEdit;
use crate::lsp::LspWorkspaceEdit;
use crate::lsp::TextEditView;
use crate::lsp::WorkspaceEditView;
use crate::text;

verus! {

/// A fresh exchange with a server about a document.
pub open spec fn started(
    kind: ExchangeKind,
    position: DocumentView,
    config: ConfigView,
    version: Seq<char>,
    method: Seq<char>,
    params: JsonView,
) -> ExchangeView {
    ExchangeView {
        plan: Plan {
            kind,
            config,
            root: position.root,
            path: position.path,
            text: position.text,
            platform: position.platform,
            version,
            method,
            params,
        },
        phase: Phase::New,
        response: None,
        edits: Seq::empty(),
        published: None,
    }
}

/// A fresh exchange about a document, where a server is known for it.
pub open spec fn begun(
    kind: ExchangeKind,
    position: DocumentView,
    settings: SettingsView,
    version: Seq<char>,
    method: Seq<char>,
    params: JsonView,
) -> Option<ExchangeView> {
    match config::server_for(position.path, settings, position.platform) {
        None => None,
        Some(config) => Some(started(kind, position, config, version, method, params)),
    }
}

/// The value of an optional exchange.
pub open spec fn maybe_exchange(exchange: Option<LspExchange>) -> Option<ExchangeView> {
    match exchange {
        Some(e) => Some(e@),
        None => None,
    }
}

fn start(
    kind: ExchangeKind,
    position: &DocumentPosition,
    config: LanguageServerConfig,
    version: &str,
    method: &str,
    params: Json,
) -> (exchange: LspExchange)
    ensures
        exchange@ == started(kind, position@, config@, version@, method@, params@),
{
    let edits: Vec<LspTextEdit> = Vec::new();
    proof {
        assert(lsp::edits_view(edits@) =~= Seq::<TextEditView>::empty());
    }
    LspExchange {
        kind,
        config,
        root: position.root.clone(),
        path: position.path.clone(),
        text: position.text.clone(),
        platform: position.platform,
        version: version.to_owned(),
        method: method.to_owned(),
        params,
        phase: Phase::New,
        response: None,
        edits,
        published: None,
    }
}

/// Asks a server what stands at a position.
pub fn request_hover_with_config(
    position: &DocumentPosition,
    config: LanguageServerConfig,
    version: &str,
) -> (exchange: LspExchange)
    ensures
        exchange@ == started(
            ExchangeKind::Request,
            position@,
            config@,
            version@,
            "textDocument/hover"@,
            params::object(params::position_members(position@)),
        ),
{
    let params = params::text_document_position_params(position);
    start(ExchangeKind::Request, position, config, version, "textDocument/hover", params)
}

/// Asks what stands at a position.
pub fn hover(
    position: &DocumentPosition,
    settings: &LspSettings,
    version: &str,
) -> (exchange: Option<LspExchange>)
    ensures
        maybe_exchange(exchange) == begun(
            ExchangeKind::Request,
            position@,
            settings@,
            version@,
            "textDocument/hover"@,
            params::object(params::position_members(position@)),
        ),
{
    match config::language_server_for_path(&position.path, settings, position.platform) {
        Some(config) => Some(request_hover_with_config(position, config, version)),
        None => None,
    }
}

/// Asks a server for the definitions of what stands at a position.
pub fn request_definitions_with_config(
    position: &DocumentPosition,
    config: LanguageServerConfig,
    version: &str,
) -> (exchange: LspExchange)
    ensures
        exchange@ == started(
            ExchangeKind::Request,
            position@,
            config@,
            version@,
            "textDocument/definition"@,
            params::object(params::position_members(position@)),
        ),
{
    let params = params::text_document_position_params(position);
    start(ExchangeKind::Request, position, config, version, "textDocument/definition", params)
}

/// Asks for the definitions of what stands at a position.
pub fn definitions(
    position: &DocumentPosition,
    settings: &LspSettings,
    version: &str,
) -> (exchange: Option<LspExchange>)
    ensures
        maybe_exchange(exchange) == begun(
            ExchangeKind::Request,
            position@,
            settings@,
            version@,
            "textDocument/definition"@,
            params::object(params::position_members(position@)),
        ),
{
    match config::language_server_for_path(&position.path, settings, position.platform) {
        Some(config) => Some(request_definitions_with_config(position, config, version)),
        None => None,
    }
}

/// Asks a server for the references to what stands at a position.
pub fn request_references_with_config(
    position: &DocumentPosition,
    config: LanguageServerConfig,
    version: &str,
) -> (exchange: LspExchange)
    ensures
        exchange@ == started(
            ExchangeKind::Request,
            position@,
            config@,
            version@,
            "textDocument/references"@,
            params::references_value(position@),
        ),
{
    let params = params::references_params(position);
    start(ExchangeKind::Request, position, config, version, "textDocument/references", params)
}

/// Asks for the references to what stands at a position.
pub fn references(
    position: &DocumentPosition,
    settings: &LspSettings,
    version: &str,
) -> (exchange: Option<LspExchange>)
    ensures
        maybe_exchange(exchange) == begun(
            ExchangeKind::Request,
            position@,
            settings@,
            version@,
            "textDocument/references"@,
            params::references_value(position@),
        ),
{
    match config::language_server_for_path(&position.path, settings, position.platform) {
        Some(config) => Some(request_references_with_config(position, config, version)),
        None => None,
    }
}

/// Asks a server what could be written at a position.
pub fn request_completions_with_config(
    position: &DocumentPosition,
    config: LanguageServerConfig,
    version: &str,
) -> (exchange: LspExchange)
    ensures
        exchange@ == started(
            ExchangeKind::Request,
            position@,
            config@,
            version@,
            "textDocument/completion"@,
            params::completion_value(position@),
        ),
{
    let params = params::completion_params(position);
    start(ExchangeKind::Request, position, config, version, "textDocument/completion", params)
}

/// Asks what could be written at a position.
pub fn completions(
    position: &DocumentPosition,
    settings: &LspSettings,
    version: &str,
) -> (exchange: Option<LspExchange>)
    ensures
        maybe_exchange(exchange) == begun(
            ExchangeKind::Request,
            position@,
            settings@,
            version@,
            "textDocument/completion"@,
            params::completion_value(position@),
        ),
{
    match config::language_server_for_path(&position.path, settings, position.platform) {
        Some(config) => Some(request_completions_with_config(position, config, version)),
        None => None,
    }
}

/// Asks a server for the problems of a document.
pub fn request_diagnostics_with_config(
    position: &DocumentPosition,
    config: LanguageServerConfig,
    version: &str,
) -> (exchange: LspExchange)
    ensures
        exchange@ == started(
            ExchangeKind::Diagnostics,
            position@,
            config@,
            version@,
            ""@,
            JsonView::Null,
        ),
{
    let params = Json::Null;
    start(ExchangeKind::Diagnostics, position, config, version, "", params)
}

/// Asks for the problems of a document.
pub fn diagnostics(
    position: &DocumentPosition,
    settings: &LspSettings,
    version: &str,
) -> (exchange: Option<LspExchange>)
    ensures
        maybe_exchange(exchange) == begun(
            ExchangeKind::Diagnostics,
            position@,
            settings@,
            version@,
            ""@,
            JsonView::Null,
        ),
{
    match config::language_server_for_path(&position.path, settings, position.platform) {
        Some(config) => Some(request_diagnostics_with_config(position, config, version)),
        None => None,
    }
}

/// Asks a server what could be done at a position, in view of known problems; `aliases`
/// are other paths of the document.
pub fn request_code_actions_with_config(
    position: &DocumentPosition,
    diagnostics: &Vec<LspDiagnostic>,
    aliases: &Vec<String>,
    config: LanguageServerConfig,
    version: &str,
) -> (exchange: LspExchange)
    ensures
        exchange@ == started(
            ExchangeKind::Request,
            position@,
            config@,
            version@,
            "textDocument/codeAction"@,
            params::code_action_value(
                position@,
                lsp::diagnostics_view(diagnostics@),
                text::texts(aliases@),
            ),
        ),
{
    let params = params::code_action_params(position, diagnostics, aliases);
    start(ExchangeKind::Request, position, config, version, "textDocument/codeAction", params)
}

/// Asks what could be done at a position, in view of known problems; `aliases`
/// are other paths of the document.
pub fn code_actions(
    position: &DocumentPosition,
    diagnostics: &Vec<LspDiagnostic>,
    aliases: &Vec<String>,
    settings: &LspSettings,
    version: &str,
) -> (exchange: Option<LspExchange>)
    ensures
        maybe_exchange(exchange) == begun(
            ExchangeKind::Request,
            position@,
            settings@,
            version@,
            "textDocument/codeAction"@,
            params::code_action_value(
                position@,
                lsp::diagnostics_view(diagnostics@),
                text::texts(aliases@),
            ),
        ),
{
    match config::language_server_for_path(&position.path, settings, position.platform) {
        Some(config) => Some(
            request_code_actions_with_config(position, diagnostics, aliases, config, version),
        ),
        None => None,
    }
}

/// Asks a server for a command to be executed.
pub fn request_execute_command_with_config(
    position: &DocumentPosition,
    command: &LspCommand,
    config: LanguageServerConfig,
    version: &str,
) -> (exchange: LspExchange)
    ensures
        exchange@ == started(
            ExchangeKind::RequestTakingEdits,
            position@,
            config@,
            version@,
            "workspace/executeCommand"@,
            params::command_value(command@),
        ),
{
    let params = params::command_params(command);
    start(
        ExchangeKind::RequestTakingEdits,
        position,
        config,
        version,
        "workspace/executeCommand",
        params,
    )
}

/// Asks for the command of a code action to be executed; nothing where the
/// action has none.
pub fn execute_code_action_command(
    position: &DocumentPosition,
    action: &LspCodeAction,
    settings: &LspSettings,
    version: &str,
) -> (exchange: Option<LspExchange>)
    ensures
        maybe_exchange(exchange) == match action@.command {
            None => None,
            Some(command) => begun(
                ExchangeKind::RequestTakingEdits,
                position@,
                settings@,
                version@,
                "workspace/executeCommand"@,
                params::command_value(command),
            ),
        },
{
    match &action.command {
        None => None,
        Some(command) => match config::language_server_for_path(&position.path, settings, position.platform) {
            Some(config) => Some(
                request_execute_command_with_config(position, command, config, version),
            ),
            None => None,
        },
    }
}

/// Asks a server for a document to be formatted.
pub fn request_formatting_with_config(
    position: &DocumentPosition,
    config: LanguageServerConfig,
    version: &str,
) -> (exchange: LspExchange)
    ensures
        exchange@ == started(
            ExchangeKind::Request,
            position@,
            config@,
            version@,
            "textDocument/formatting"@,
            params::formatting_value(position@.path),
        ),
{
    let params = params::formatting_params(position);
    start(ExchangeKind::Request, position, config, version, "textDocument/formatting", params)
}

/// Asks for a document to be formatted.
pub fn formatting(
    position: &DocumentPosition,
    settings: &LspSettings,
    version: &str,
) -> (exchange: Option<LspExchange>)
    ensures
        maybe_exchange(exchange) == begun(
            ExchangeKind::Request,
            position@,
            settings@,
            version@,
            "textDocument/formatting"@,
            params::formatting_value(position@.path),
        ),
{
    match config::language_server_for_path(&position.path, settings, position.platform) {
        Some(config) => Some(request_formatting_with_config(position, config, version)),
        None => None,
    }
}

/// Asks a server for what stands at a position to be renamed.
pub fn request_rename_with_config(
    position: &DocumentPosition,
    new_name: &str,
    config: LanguageServerConfig,
    version: &str,
) -> (exchange: LspExchange)
    ensures
        exchange@ == started(
            ExchangeKind::Request,
            position@,
            config@,
            version@,
            "textDocument/rename"@,
            params::rename_value(position@, new_name@),
        ),
{
    let params = params::rename_params(position, new_name);
    start(ExchangeKind::Request, position, config, version, "textDocument/rename", params)
}

/// Asks for what stands at a position to be renamed.
pub fn rename(
    position: &DocumentPosition,
    new_name: &str,
    settings: &LspSettings,
    version: &str,
) -> (exchange: Option<LspExchange>)
    ensures
        maybe_exchange(exchange) == begun(
            ExchangeKind::Request,
            position@,
            settings@,
            version@,
            "textDocument/rename"@,
            params::rename_value(position@, new_name@),
        ),
{
    match config::language_server_for_path(&position.path, settings, position.platform) {
        Some(config) => Some(request_rename_with_config(position, new_name, config, version)),
        None => None,
    }
}

/// The result that an exchange ended with.
pub open spec fn result_of(exchange: ExchangeView) -> Option<JsonView> {
    match exchange.response {
        Some(result) => result,
        None => None,
    }
}

fn result_in(exchange: &LspExchange) -> (result: Option<&Json>)
    ensures
        json::maybe(result) == result_of(exchange@),
{
    match &exchange.response {
        Some(response) => match &response.result {
            Some(value) => Some(value),
            None => None,
        },
        None => None,
    }
}

/// What a hover exchange answers.
pub fn hover_answer(exchange: &LspExchange) -> (answer: Option<LspHover>)
    ensures
        answer is Some <==> parse::hover_text(result_of(exchange@)) is Some,
        answer matches Some(hover) ==> Some(hover@.contents) == parse::hover_text(
            result_of(exchange@),
        ) && hover@.server == exchange@.plan.config.name,
{
    match parse::hover_contents(result_in(exchange)) {
        Some(contents) => Some(LspHover { contents, server: exchange.config.name.clone() }),
        None => None,
    }
}

/// What is known of files after an exchange: its document, and what is given of
/// other names and other files.
pub open spec fn known_to(
    exchange: ExchangeView,
    aliases: Seq<Seq<char>>,
    others: Seq<lsp::FileView>,
) -> lsp::KnownView {
    lsp::KnownView {
        path: exchange.plan.path,
        text: exchange.plan.text,
        aliases,
        others,
        platform: exchange.plan.platform,
    }
}

fn known_files<'a>(
    exchange: &'a LspExchange,
    aliases: &'a Vec<String>,
    others: &'a Vec<FileText>,
) -> (known: KnownFiles<'a>)
    ensures
        known@ == known_to(exchange@, text::texts(aliases@), lsp::files_view(others@)),
{
    KnownFiles {
        path: exchange.path.as_str(),
        text: exchange.text.as_str(),
        aliases,
        others,
        platform: exchange.platform,
    }
}

/// What an exchange about definitions or references answers; `aliases` are other
/// names of the document, `others` other files.
pub fn locations_answer(
    exchange: &LspExchange,
    aliases: &Vec<String>,
    others: &Vec<FileText>,
) -> (answer: Vec<LspLocation>)
    ensures
        lsp::locations_view(answer@) == parse::locations(
            result_of(exchange@),
            known_to(exchange@, text::texts(aliases@), lsp::files_view(others@)),
            exchange@.plan.config.name,
        ),
{
    let known = known_files(exchange, aliases, others);
    parse::parse_locations(result_in(exchange), &known, &exchange.config.name)
}

/// What an exchange about completions answers.
pub fn completions_answer(exchange: &LspExchange) -> (answer: Vec<LspCompletion>)
    ensures
        lsp::completions_view(answer@) == parse::completions(
            result_of(exchange@),
            exchange@.plan.config.name,
        ),
{
    parse::parse_completions(result_in(exchange), &exchange.config.name)
}

/// The diagnostics that an exchange gathered.
pub open spec fn gathered(
    exchange: ExchangeView,
    aliases: Seq<Seq<char>>,
    others: Seq<lsp::FileView>,
) -> Seq<DiagnosticView> {
    match exchange.published {
        Some(value) => match parse::publish_diagnostics(
            value,
            known_to(exchange, aliases, others),
            exchange.plan.config.name,
        ) {
            Some(items) => items,
            None => Seq::empty(),
        },
        None => Seq::empty(),
    }
}

/// What an exchange about diagnostics answers; `aliases` are other names of the
/// document, `others` other files.
pub fn diagnostics_answer(
    exchange: &LspExchange,
    aliases: &Vec<String>,
    others: &Vec<FileText>,
) -> (answer: Vec<LspDiagnostic>)
    ensures
        lsp::diagnostics_view(answer@) == gathered(
            exchange@,
            text::texts(aliases@),
            lsp::files_view(others@),
        ),
{
    let known = known_files(exchange, aliases, others);
    let found = match &exchange.published {
        Some(value) => parse::parse_publish_diagnostics(value, &known, &exchange.config.name),
        None => None,
    };
    match found {
        Some(items) => items,
        None => {
            let none: Vec<LspDiagnostic> = Vec::new();
            proof {
                assert(lsp::diagnostics_view(none@) =~= Seq::<DiagnosticView>::empty());
            }
            none
        },
    }
}

/// What an exchange about code actions answers.
pub fn code_actions_answer(exchange: &LspExchange) -> (answer: Vec<LspCodeAction>)
    ensures
        lsp::code_actions_view(answer@) == parse::code_actions(
            result_of(exchange@),
            exchange@.plan.config.name,
            exchange@.plan.platform,
        ),
{
    parse::parse_code_actions(result_in(exchange), &exchange.config.name, exchange.platform)
}

/// The edits that a command brought: those that the server asked for, then
/// those of the reply.
pub open spec fn command_edits(exchange: ExchangeView) -> Seq<TextEditView> {
    match parse::workspace_edit(
        result_of(exchange),
        exchange.plan.config.name,
        exchange.plan.platform,
    ) {
        Some(edit) => exchange.edits + edit.edits,
        None => exchange.edits,
    }
}

/// What an exchange about a command answers; nothing where it edits nothing.
pub fn command_answer(exchange: LspExchange) -> (answer: Option<LspWorkspaceEdit>)
    ensures
        lsp::maybe_edit(answer) == if command_edits(exchange@).len() == 0 {
            None
        } else {
            Some(
                WorkspaceEditView {
                    edits: command_edits(exchange@),
                    server: exchange@.plan.config.name,
                },
            )
        },
{
    let own = parse::parse_workspace_edit(
        result_in(&exchange),
        &exchange.config.name,
        exchange.platform,
    );
    let server = exchange.config.name.clone();
    let mut edits = exchange.edits;
    let ghost before = edits@;
    if let Some(edit) = own {
        let mut more = edit.edits;
        let ghost added = more@;
        edits.append(&mut more);
        proof {
            assert(lsp::edits_view(edits@) =~= lsp::edits_view(before) + lsp::edits_view(added));
        }
    }
    proof {
        assert(lsp::edits_view(edits@) == command_edits(exchange@));
        assert(edits@.len() == lsp::edits_view(edits@).len());
    }
    if edits.len() == 0 {
        None
    } else {
        Some(LspWorkspaceEdit { edits, server })
    }
}

/// What an exchange about formatting answers.
pub fn formatting_answer(exchange: &LspExchange) -> (answer: Option<LspWorkspaceEdit>)
    ensures
        lsp::maybe_edit(answer) == parse::formatting_edit(
            result_of(exchange@),
            exchange@.plan.path,
            exchange@.plan.config.name,
            exchange@.plan.platform,
        ),
{
    parse::parse_formatting_edits(
        result_in(exchange),
        &exchange.path,
        &exchange.config.name,
        exchange.platform,
    )
}

/// What an exchange about a rename answers.
pub fn rename_answer(exchange: &LspExchange) -> (answer: Option<LspWorkspaceEdit>)
    ensures
        lsp::maybe_edit(answer) == parse::workspace_edit(
            result_of(exchange@),
            exchange@.plan.config.name,
            exchange@.plan.platform,
        ),
{
    parse::parse_workspace_edit(result_in(exchange), &exchange.config.name, exchange.platform)
}

} // verus!
