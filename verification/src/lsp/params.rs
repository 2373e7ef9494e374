//! The messages that are sent to a language server.

use vstd::prelude::*;

use crate::json;
use crate::json::Json;
use crate::json::JsonNumber;
use crate::json::JsonView;
use crate::json::Members;
use crate::json::NumberView;
use crate::lsp;
use crate::lsp::columns;
use crate::lsp::uri;
use crate::lsp::CommandView;
use crate::lsp::DiagnosticView;
use crate::lsp::DocumentPosition;
use crate::lsp::DocumentView;
use crate::lsp::LspCommand;
use crate::lsp::LspDiagnostic;
use crate::path::components;
use crate::path::Platform;
use crate::text;

verus! {

/// The object with these members.
pub open spec fn object(members: Seq<(Seq<char>, JsonView)>) -> JsonView {
    JsonView::Object(members)
}

/// The line that a position is on; empty past the last line.
pub open spec fn position_line(text: Seq<char>, line: usize) -> Seq<char> {
    match text::line_at(text, line as nat) {
        Some(shown) => shown,
        None => Seq::empty(),
    }
}

fn line_of_position(position: &DocumentPosition) -> (line: String)
    ensures
        line@ == position_line(position@.text, position@.line),
{
    match text::nth_line(&position.text, position.line) {
        Some(line) => line,
        None => String::new(),
    }
}

/// The member that names a document.
pub open spec fn text_document(path: Seq<char>) -> (Seq<char>, JsonView) {
    ("textDocument"@, object(json::no_members().push(("uri"@, json::str_view(uri::file_uri(path))))))
}

/// A point of a document in the protocol's terms.
pub open spec fn point(line: usize, character: nat) -> JsonView {
    object(
        json::no_members()
            .push(("line"@, json::number_view(line as u64)))
            .push(("character"@, json::number_view(character as u64))),
    )
}

/// The members that name a document and a position in it.
pub open spec fn position_members(position: DocumentView) -> Seq<(Seq<char>, JsonView)> {
    let line = position_line(position.text, position.line);
    json::no_members()
        .push(text_document(position.path))
        .push(("position"@, point(position.line, columns::utf16_col(line, position.col as nat))))
}

fn document_value(path: &str) -> (value: Json)
    ensures
        value@ == text_document(path@).1,
{
    Members::none().with("uri", json::string(&uri::path_to_file_uri(path))).object()
}

fn point_value(line: usize, character: usize) -> (value: Json)
    ensures
        value@ == point(line, character as nat),
{
    Members::none()
        .with("line", json::number(line as u64))
        .with("character", json::number(character as u64))
        .object()
}

fn members_of_position(position: &DocumentPosition) -> (members: Members)
    ensures
        members@ == position_members(position@),
{
    let line = line_of_position(position);
    let character = columns::char_col_to_utf16(&line, position.col);
    Members::none()
        .with("textDocument", document_value(&position.path))
        .with("position", point_value(position.line, character))
}

/// The parameters of a request about a position.
pub fn text_document_position_params(position: &DocumentPosition) -> (params: Json)
    ensures
        params@ == object(position_members(position@)),
{
    members_of_position(position).object()
}

/// The parameters of a request for references, the declaration among them.
pub open spec fn references_value(position: DocumentView) -> JsonView {
    object(
        position_members(position)
            .push(
                (
                    "context"@,
                    object(
                        json::no_members().push(("includeDeclaration"@, JsonView::Bool(true))),
                    ),
                ),
            ),
    )
}

pub fn references_params(position: &DocumentPosition) -> (params: Json)
    ensures
        params@ == references_value(position@),
{
    members_of_position(position)
        .with("context", Members::none().with("includeDeclaration", Json::Bool(true)).object())
        .object()
}

/// The parameters of a request for completions that the user asked for.
pub open spec fn completion_value(position: DocumentView) -> JsonView {
    object(
        position_members(position)
            .push(
                (
                    "context"@,
                    object(json::no_members().push(("triggerKind"@, json::number_view(1)))),
                ),
            ),
    )
}

pub fn completion_params(position: &DocumentPosition) -> (params: Json)
    ensures
        params@ == completion_value(position@),
{
    members_of_position(position)
        .with("context", Members::none().with("triggerKind", json::number(1)).object())
        .object()
}

/// The parameters of a request to rename what stands at a position.
pub open spec fn rename_value(position: DocumentView, new_name: Seq<char>) -> JsonView {
    object(position_members(position).push(("newName"@, json::str_view(new_name))))
}

pub fn rename_params(position: &DocumentPosition, new_name: &str) -> (params: Json)
    ensures
        params@ == rename_value(position@, new_name@),
{
    members_of_position(position).with("newName", json::string(new_name)).object()
}

/// The parameters of a request to format a document.
pub open spec fn formatting_value(path: Seq<char>) -> JsonView {
    object(
        json::no_members()
            .push(text_document(path))
            .push(
                (
                    "options"@,
                    object(
                        json::no_members()
                            .push(("tabSize"@, json::number_view(4)))
                            .push(("insertSpaces"@, JsonView::Bool(true)))
                            .push(("trimTrailingWhitespace"@, JsonView::Bool(true)))
                            .push(("insertFinalNewline"@, JsonView::Bool(true)))
                            .push(("trimFinalNewlines"@, JsonView::Bool(true))),
                    ),
                ),
            ),
    )
}

pub fn formatting_params(position: &DocumentPosition) -> (params: Json)
    ensures
        params@ == formatting_value(position@.path),
{
    let options = Members::none()
        .with("tabSize", json::number(4))
        .with("insertSpaces", Json::Bool(true))
        .with("trimTrailingWhitespace", Json::Bool(true))
        .with("insertFinalNewline", Json::Bool(true))
        .with("trimFinalNewlines", Json::Bool(true))
        .object();
    Members::none()
        .with("textDocument", document_value(&position.path))
        .with("options", options)
        .object()
}

/// The parameters of a request to execute a command.
pub open spec fn command_value(command: CommandView) -> JsonView {
    object(
        json::no_members()
            .push(("command"@, json::str_view(command.command)))
            .push(("arguments"@, JsonView::Array(command.arguments))),
    )
}

pub fn command_params(command: &LspCommand) -> (params: Json)
    ensures
        params@ == command_value(command@),
{
    broadcast use json::group_json_views;

    let arguments = Json::Array(json::copy_all(&command.arguments));
    Members::none()
        .with("command", json::string(&command.command))
        .with("arguments", arguments)
        .object()
}

/// Whether a path names the document: it has the components of the document's own
/// path, or is one of its other names.
pub open spec fn names_document(
    path: Seq<char>,
    document: Seq<char>,
    aliases: Seq<Seq<char>>,
    platform: Platform,
) -> bool {
    components::is_same_path(path, document, platform) || aliases.contains(path)
}

/// Whether a path names the document, `aliases` being its other names.
pub fn same_path(path: &str, document: &str, aliases: &Vec<String>, platform: Platform) -> (same:
    bool)
    ensures
        same == names_document(path@, document@, text::texts(aliases@), platform),
{
    if components::same_text_path(path, document, platform) {
        return true;
    }
    for i in 0..aliases.len()
        invariant
            !components::is_same_path(path@, document@, platform),
            forall|j: int| 0 <= j < i ==> aliases@[j]@ != path@,
    {
        if text::same(&aliases[i], path) {
            proof {
                assert(text::texts(aliases@)[i as int] == path@);
            }
            return true;
        }
    }
    proof {
        assert(!text::texts(aliases@).contains(path@));
    }
    false
}

/// Where a diagnostic starts and ends on its line: one character, or none at
/// the end of the line.
pub open spec fn marked_columns(line: Seq<char>, col: usize) -> (nat, nat) {
    let start: nat = if col < line.len() {
        col as nat
    } else {
        line.len()
    };
    (
        start,
        if start < line.len() {
            start + 1
        } else {
            start
        },
    )
}

/// A diagnostic in the protocol's terms, where it is one of the document and on
/// one of its lines.
pub open spec fn diagnostic_value(
    diagnostic: DiagnosticView,
    position: DocumentView,
    aliases: Seq<Seq<char>>,
) -> Option<JsonView> {
    if !names_document(diagnostic.path, position.path, aliases, position.platform) {
        None
    } else {
        match text::line_at(position.text, diagnostic.line as nat) {
            None => None,
            Some(line) => {
                let (start, end) = marked_columns(line, diagnostic.col);
                let base = json::no_members()
                    .push(
                        (
                            "range"@,
                            object(
                                json::no_members()
                                    .push(
                                        (
                                            "start"@,
                                            point(
                                                diagnostic.line,
                                                columns::utf16_col(line, start),
                                            ),
                                        ),
                                    )
                                    .push(
                                        (
                                            "end"@,
                                            point(diagnostic.line, columns::utf16_col(line, end)),
                                        ),
                                    ),
                            ),
                        ),
                    )
                    .push(("severity"@, json::number_view(diagnostic.severity.number())))
                    .push(("message"@, json::str_view(diagnostic.message)));
                let with_source = match diagnostic.source {
                    Some(source) => base.push(("source"@, json::str_view(source))),
                    None => base,
                };
                let with_code = match diagnostic.code {
                    Some(code) => with_source.push(("code"@, json::str_view(code))),
                    None => with_source,
                };
                Some(object(with_code))
            },
        }
    }
}

pub fn diagnostic_to_lsp_value(
    diagnostic: &LspDiagnostic,
    position: &DocumentPosition,
    aliases: &Vec<String>,
) -> (value: Option<Json>)
    ensures
        value is Some <==> diagnostic_value(diagnostic@, position@, text::texts(aliases@)) is Some,
        value matches Some(v) ==> Some(v@) == diagnostic_value(
            diagnostic@,
            position@,
            text::texts(aliases@),
        ),
{
    if !same_path(&diagnostic.path, &position.path, aliases, position.platform) {
        return None;
    }
    let line = match text::nth_line(&position.text, diagnostic.line) {
        Some(line) => line,
        None => {
            return None;
        },
    };
    let line_len = text::count(&line);
    let start: usize = if diagnostic.col < line_len {
        diagnostic.col
    } else {
        line_len
    };
    let end: usize = if start < line_len {
        start + 1
    } else {
        start
    };
    let range = Members::none()
        .with("start", point_value(diagnostic.line, columns::char_col_to_utf16(&line, start)))
        .with("end", point_value(diagnostic.line, columns::char_col_to_utf16(&line, end)))
        .object();
    let mut members = Members::none()
        .with("range", range)
        .with("severity", json::number(diagnostic.severity.as_lsp_number()))
        .with("message", json::string(&diagnostic.message));
    if let Some(source) = &diagnostic.source {
        members = members.with("source", json::string(source));
    }
    if let Some(code) = &diagnostic.code {
        members = members.with("code", json::string(code));
    }
    Some(members.object())
}

/// Those of the diagnostics that belong to the document, in the protocol's
/// terms.
pub open spec fn diagnostic_values(
    diagnostics: Seq<DiagnosticView>,
    position: DocumentView,
    aliases: Seq<Seq<char>>,
) -> Seq<JsonView>
    decreases diagnostics.len(),
{
    if diagnostics.len() == 0 {
        Seq::empty()
    } else {
        let before = diagnostic_values(diagnostics.drop_last(), position, aliases);
        match diagnostic_value(diagnostics.last(), position, aliases) {
            Some(value) => before.push(value),
            None => before,
        }
    }
}

fn values_of_diagnostics(
    diagnostics: &Vec<LspDiagnostic>,
    position: &DocumentPosition,
    aliases: &Vec<String>,
) -> (values: Vec<Json>)
    ensures
        json::items_view(values@) == diagnostic_values(
            lsp::diagnostics_view(diagnostics@),
            position@,
            text::texts(aliases@),
        ),
{
    let mut values: Vec<Json> = Vec::new();
    proof {
        assert(json::items_view(values@) =~= Seq::<JsonView>::empty());
    }
    for i in 0..diagnostics.len()
        invariant
            json::items_view(values@) == diagnostic_values(
                lsp::diagnostics_view(diagnostics@).take(i as int),
                position@,
                text::texts(aliases@),
            ),
    {
        let ghost all = lsp::diagnostics_view(diagnostics@);
        let ghost before = values@;
        assert(all.take(i + 1).drop_last() =~= all.take(i as int));
        if let Some(value) = diagnostic_to_lsp_value(&diagnostics[i], position, aliases) {
            values.push(value);
            assert(json::items_view(values@) =~= json::items_view(before).push(value@));
        }
    }
    assert(lsp::diagnostics_view(diagnostics@).take(diagnostics@.len() as int)
        =~= lsp::diagnostics_view(diagnostics@));
    values
}

/// The parameters of a request for code actions at a position.
pub open spec fn code_action_value(
    position: DocumentView,
    diagnostics: Seq<DiagnosticView>,
    aliases: Seq<Seq<char>>,
) -> JsonView {
    let line = position_line(position.text, position.line);
    let at = point(position.line, columns::utf16_col(line, position.col as nat));
    object(
        json::no_members()
            .push(text_document(position.path))
            .push(("range"@, object(json::no_members().push(("start"@, at)).push(("end"@, at)))))
            .push(
                (
                    "context"@,
                    object(
                        json::no_members()
                            .push(
                                (
                                    "diagnostics"@,
                                    JsonView::Array(
                                        diagnostic_values(diagnostics, position, aliases),
                                    ),
                                ),
                            )
                            .push(
                                (
                                    "only"@,
                                    JsonView::Array(
                                        seq![
                                            json::str_view("quickfix"@),
                                            json::str_view("refactor"@),
                                            json::str_view("source"@),
                                        ],
                                    ),
                                ),
                            ),
                    ),
                ),
            ),
    )
}

pub fn code_action_params(
    position: &DocumentPosition,
    diagnostics: &Vec<LspDiagnostic>,
    aliases: &Vec<String>,
) -> (params: Json)
    ensures
        params@ == code_action_value(
            position@,
            lsp::diagnostics_view(diagnostics@),
            text::texts(aliases@),
        ),
{
    broadcast use json::group_json_views;

    let line = line_of_position(position);
    let character = columns::char_col_to_utf16(&line, position.col);
    let range = Members::none()
        .with("start", point_value(position.line, character))
        .with("end", point_value(position.line, character))
        .object();
    let listed = Json::Array(values_of_diagnostics(diagnostics, position, aliases));
    let mut kinds: Vec<Json> = Vec::new();
    kinds.push(json::string("quickfix"));
    kinds.push(json::string("refactor"));
    kinds.push(json::string("source"));
    proof {
        assert(json::items_view(kinds@) =~= seq![
            json::str_view("quickfix"@),
            json::str_view("refactor"@),
            json::str_view("source"@),
        ]);
    }
    let context = Members::none().with("diagnostics", listed).with("only", Json::Array(kinds)).object();
    Members::none()
        .with("textDocument", document_value(&position.path))
        .with("range", range)
        .with("context", context)
        .object()
}

/// A notification.
pub open spec fn notification(method: Seq<char>, params: JsonView) -> JsonView {
    object(
        json::no_members()
            .push(("jsonrpc"@, json::str_view("2.0"@)))
            .push(("method"@, json::str_view(method)))
            .push(("params"@, params)),
    )
}

/// A request that goes out under the number `id`.
pub open spec fn request(id: u64, method: Seq<char>, params: JsonView) -> JsonView {
    object(
        json::no_members()
            .push(("jsonrpc"@, json::str_view("2.0"@)))
            .push(("id"@, json::number_view(id)))
            .push(("method"@, json::str_view(method)))
            .push(("params"@, params)),
    )
}

pub fn notification_message(method: &str, params: Json) -> (message: Json)
    ensures
        message@ == notification(method@, params@),
{
    Members::none()
        .with("jsonrpc", json::string("2.0"))
        .with("method", json::string(method))
        .with("params", params)
        .object()
}

pub fn request_message(id: u64, method: &str, params: Json) -> (message: Json)
    ensures
        message@ == request(id, method@, params@),
{
    Members::none()
        .with("jsonrpc", json::string("2.0"))
        .with("id", json::number(id))
        .with("method", json::string(method))
        .with("params", params)
        .object()
}

/// The request that opens an exchange. A client that takes workspace edits
/// from the server says so.
pub open spec fn initialize(root: Seq<char>, takes_edits: bool, version: Seq<char>) -> JsonView {
    let capabilities = if takes_edits {
        object(
            json::no_members()
                .push(
                    (
                        "workspace"@,
                        object(json::no_members().push(("applyEdit"@, JsonView::Bool(true)))),
                    ),
                ),
        )
    } else {
        object(Seq::empty())
    };
    request(
        1,
        "initialize"@,
        object(
            json::no_members()
                .push(("processId"@, JsonView::Null))
                .push(("rootUri"@, json::str_view(uri::file_uri(root))))
                .push(("capabilities"@, capabilities))
                .push(
                    (
                        "clientInfo"@,
                        object(
                            json::no_members()
                                .push(("name"@, json::str_view("tscode"@)))
                                .push(("version"@, json::str_view(version))),
                        ),
                    ),
                ),
        ),
    )
}

pub fn initialize_message(root: &str, takes_edits: bool, version: &str) -> (message: Json)
    ensures
        message@ == initialize(root@, takes_edits, version@),
{
    let capabilities = if takes_edits {
        let workspace = Members::none().with("applyEdit", Json::Bool(true)).object();
        Members::none().with("workspace", workspace).object()
    } else {
        Members::none().object()
    };
    let client = Members::none()
        .with("name", json::string("tscode"))
        .with("version", json::string(version))
        .object();
    let params = Members::none()
        .with("processId", Json::Null)
        .with("rootUri", json::string(&uri::path_to_file_uri(root)))
        .with("capabilities", capabilities)
        .with("clientInfo", client)
        .object();
    request_message(1, "initialize", params)
}

pub open spec fn initialized() -> JsonView {
    notification("initialized"@, object(Seq::empty()))
}

pub fn initialized_message() -> (message: Json)
    ensures
        message@ == initialized(),
{
    notification_message("initialized", Members::none().object())
}

/// The notification that hands the server a document.
pub open spec fn did_open(path: Seq<char>, language_id: Seq<char>, text: Seq<char>) -> JsonView {
    notification("textDocument/didOpen"@,
        object(
            json::no_members()
                .push(
                    (
                        "textDocument"@,
                        object(
                            json::no_members()
                                .push(("uri"@, json::str_view(uri::file_uri(path))))
                                .push(("languageId"@, json::str_view(language_id)))
                                .push(("version"@, json::number_view(1)))
                                .push(("text"@, json::str_view(text))),
                        ),
                    ),
                ),
        ),
    )
}

pub fn did_open_message(path: &str, language_id: &str, text: &str) -> (message: Json)
    ensures
        message@ == did_open(path@, language_id@, text@),
{
    let document = Members::none()
        .with("uri", json::string(&uri::path_to_file_uri(path)))
        .with("languageId", json::string(language_id))
        .with("version", json::number(1))
        .with("text", json::string(text))
        .object();
    notification_message("textDocument/didOpen",
        Members::none().with("textDocument", document).object(),
    )
}

pub open spec fn shutdown() -> JsonView {
    request(3, "shutdown"@, JsonView::Null)
}

pub fn shutdown_message() -> (message: Json)
    ensures
        message@ == shutdown(),
{
    request_message(3, "shutdown", Json::Null)
}

pub open spec fn exit() -> JsonView {
    notification("exit"@, JsonView::Null)
}

pub fn exit_message() -> (message: Json)
    ensures
        message@ == exit(),
{
    notification_message("exit", Json::Null)
}

/// The answer to a server that asked for a workspace edit to be applied.
pub open spec fn apply_edit_answer(id: JsonView, applied: bool) -> JsonView {
    let result = if applied {
        object(json::no_members().push(("applied"@, JsonView::Bool(true))))
    } else {
        object(
            json::no_members()
                .push(("applied"@, JsonView::Bool(false)))
                .push(
                    (
                        "failureReason"@,
                        json::str_view("tscode did not receive a workspace edit"@),
                    ),
                ),
        )
    };
    object(
        json::no_members()
            .push(("jsonrpc"@, json::str_view("2.0"@)))
            .push(("id"@, id))
            .push(("result"@, result)),
    )
}

pub fn apply_edit_answer_message(id: Json, applied: bool) -> (message: Json)
    ensures
        message@ == apply_edit_answer(id@, applied),
{
    let result = if applied {
        Members::none().with("applied", Json::Bool(true)).object()
    } else {
        Members::none()
            .with("applied", Json::Bool(false))
            .with("failureReason", json::string("tscode did not receive a workspace edit"))
            .object()
    };
    Members::none()
        .with("jsonrpc", json::string("2.0"))
        .with("id", id)
        .with("result", result)
        .object()
}

/// The answer to a request that the client does not serve.
pub open spec fn unsupported_answer(id: JsonView) -> JsonView {
    object(
        json::no_members()
            .push(("jsonrpc"@, json::str_view("2.0"@)))
            .push(("id"@, id))
            .push(
                (
                    "error"@,
                    object(
                        json::no_members()
                            .push(
                                ("code"@, JsonView::Number(NumberView::NegInt(-32601i64 as i64))),
                            )
                            .push(
                                (
                                    "message"@,
                                    json::str_view(
                                        "method not supported by tscode one-shot LSP client"@,
                                    ),
                                ),
                            ),
                    ),
                ),
            ),
    )
}

pub fn unsupported_answer_message(id: Json) -> (message: Json)
    ensures
        message@ == unsupported_answer(id@),
{
    let error = Members::none()
        .with("code", Json::Number(JsonNumber::NegInt(-32601)))
        .with("message", json::string("method not supported by tscode one-shot LSP client"))
        .object();
    Members::none()
        .with("jsonrpc", json::string("2.0"))
        .with("id", id)
        .with("error", error)
        .object()
}

} // verus!
