//! The client of language servers.

use std::collections::VecDeque;

use tscode::json::Json;
use tscode::json::JsonNumber;
use tscode::lsp::client;
use tscode::lsp::codec::decode;
use tscode::lsp::codec::encode;
use tscode::lsp::codec::encode_message;
use tscode::lsp::columns::char_col_to_utf16;
use tscode::lsp::columns::utf16_col_to_char_col;
use tscode::lsp::config::env_language_server;
use tscode::lsp::config::language_server_for_path;
use tscode::lsp::config::split_command_words;
use tscode::lsp::config::LanguageServerConfig;
use tscode::lsp::config::LspSettings;
use tscode::lsp::exchange::ExchangeAction;
use tscode::lsp::exchange::ExchangeEvent;
use tscode::lsp::exchange::LspExchange;
use tscode::lsp::exchange::Wait;
use tscode::lsp::params;
use tscode::lsp::parse::diagnostic_code;
use tscode::lsp::parse::hover_contents;
use tscode::lsp::parse::parse_code_actions;
use tscode::lsp::parse::parse_completions;
use tscode::lsp::parse::parse_locations;
use tscode::lsp::parse::parse_publish_diagnostics;
use tscode::lsp::parse::parse_workspace_edit;
use tscode::lsp::server_name_for_path;
use tscode::lsp::uri::file_uri_to_path;
use tscode::lsp::uri::hex_value;
use tscode::lsp::uri::path_to_file_uri;
use tscode::lsp::uri::percent_decode;
use tscode::lsp::uri::percent_encode_path;
use tscode::lsp::wire::frame_message;
use tscode::lsp::wire::HeaderReader;
use tscode::lsp::wire::HeaderStep;
use tscode::lsp::DocumentPosition;
use tscode::lsp::FileText;
use tscode::lsp::KnownFiles;
use tscode::lsp::LspCodeAction;
use tscode::lsp::LspCommand;
use tscode::lsp::LspDiagnostic;
use tscode::lsp::LspDiagnosticSeverity;
use tscode::path::Platform;

fn json(text: &str) -> Json {
    decode(text.as_bytes()).unwrap()
}

/// The same value with the members of its objects in the order of their keys.
fn sorted(value: &Json) -> Json {
    match value {
        Json::Array(items) => Json::Array(items.iter().map(sorted).collect()),
        Json::Object(members) => {
            let mut members: Vec<(String, Json)> =
                members.iter().map(|(key, value)| (key.clone(), sorted(value))).collect();
            members.sort_by(|a, b| a.0.cmp(&b.0));
            Json::Object(members)
        }
        _ => value.copy(),
    }
}

fn settings() -> LspSettings {
    LspSettings { command: None, language_id: None, name: None }
}

fn config(name: &str) -> LanguageServerConfig {
    LanguageServerConfig {
        name: name.to_owned(),
        command: "/tmp/tscode/server.sh".to_owned(),
        args: Vec::new(),
        language_id: "rust".to_owned(),
    }
}

fn position(file: &str, text: &str, line: usize, col: usize) -> DocumentPosition {
    DocumentPosition {
        root: "/tmp/tscode-lsp".to_owned(),
        path: file.to_owned(),
        text: text.to_owned(),
        line,
        col,
        platform: Platform::Unix,
    }
}

const NO_NAMES: &Vec<String> = &Vec::new();
const NO_FILES: &Vec<FileText> = &Vec::new();

/// A document and nothing else.
fn document<'a>(path: &'a str, text: &'a str) -> KnownFiles<'a> {
    KnownFiles { path, text, aliases: NO_NAMES, others: NO_FILES, platform: Platform::Unix }
}

fn method(message: &Json) -> String {
    message.get("method").and_then(|value| value.as_str().cloned()).unwrap_or_default()
}

/// Performs the actions of an exchange against a server: a function from each
/// message that is sent to the messages that come back. Returns what was sent.
fn converse(exchange: &mut LspExchange, server: &mut dyn FnMut(&Json) -> Vec<Json>) -> Vec<Json> {
    let mut sent = Vec::new();
    let mut incoming: VecDeque<Json> = VecDeque::new();
    let mut event = ExchangeEvent::Begin;
    for _ in 0..200 {
        event = match exchange.next(event) {
            ExchangeAction::Start => ExchangeEvent::Started,
            ExchangeAction::Send(message) => {
                incoming.extend(server(&message));
                sent.push(message);
                ExchangeEvent::Sent
            }
            ExchangeAction::Receive(_) => match incoming.pop_front() {
                Some(message) => ExchangeEvent::Received(message),
                None => ExchangeEvent::Silence,
            },
            ExchangeAction::Kill | ExchangeAction::Finish => ExchangeEvent::Closed,
            ExchangeAction::Done => return sent,
        };
    }
    panic!("the exchange does not end");
}

/// A server that gives one reply to one method.
fn answering(wanted: &'static str, reply: Json, otherwise: &'static str) -> impl FnMut(&Json) -> Vec<Json> {
    move |message| match method(message).as_str() {
        "initialize" => vec![json(r#"{"jsonrpc":"2.0","id":1,"result":{"capabilities":{}}}"#)],
        "initialized" | "textDocument/didOpen" | "exit" => vec![],
        "shutdown" => vec![json(r#"{"jsonrpc":"2.0","id":3,"result":null}"#)],
        found if found == wanted => vec![reply.copy()],
        _ => vec![json(otherwise)],
    }
}

#[test]
fn file_uri_round_trips_paths_with_spaces() {
    let path = "/tmp/tscode lsp uri";
    let uri = path_to_file_uri(path);
    assert!(uri.contains("tscode%20lsp%20uri"));
    assert_eq!(file_uri_to_path(&uri, Platform::Unix).unwrap(), path);
}

#[test]
fn parses_hover_markdown_contents() {
    let value = json(
        r#"{
            "contents": [
                "plain",
                { "language": "rust", "value": "fn main()" },
                { "kind": "markdown", "value": "**docs**" }
            ]
        }"#,
    );
    assert_eq!(hover_contents(Some(&value)).unwrap(), "plain\n\nfn main()\n\n**docs**");
}

#[test]
fn parses_workspace_edit_changes_and_document_changes() {
    let file_a = "/tmp/tscode-lsp-edit-1/main.rs";
    let file_b = "/tmp/tscode-lsp-edit-1/lib.rs";
    let edit = json(&format!(
        r#"{{
            "changes": {{
                "{a}": [
                    {{
                        "range": {{
                            "start": {{ "line": 0, "character": 4 }},
                            "end": {{ "line": 0, "character": 9 }}
                        }},
                        "newText": "renamed"
                    }}
                ]
            }},
            "documentChanges": [
                {{
                    "textDocument": {{ "uri": "{b}", "version": null }},
                    "edits": [
                        {{
                            "range": {{
                                "start": {{ "line": 2, "character": 1 }},
                                "end": {{ "line": 2, "character": 6 }}
                            }},
                            "newText": "renamed"
                        }}
                    ]
                }},
                {{
                    "kind": "rename",
                    "oldUri": "{a}",
                    "newUri": "{b}"
                }}
            ]
        }}"#,
        a = path_to_file_uri(file_a),
        b = path_to_file_uri(file_b),
    ));

    let parsed = parse_workspace_edit(Some(&edit), "mock-rename", Platform::Unix)
        .expect("workspace edit");
    assert_eq!(parsed.server, "mock-rename");
    assert_eq!(parsed.edits.len(), 2);
    assert_eq!(parsed.edits[0].path, file_a);
    assert_eq!(parsed.edits[0].start_line, 0);
    assert_eq!(parsed.edits[0].start_utf16_col, 4);
    assert_eq!(parsed.edits[1].path, file_b);
    assert_eq!(parsed.edits[1].end_line, 2);
    assert_eq!(parsed.edits[1].new_text, "renamed");
}

#[test]
fn parses_code_actions_with_workspace_edits_and_commands() {
    let file = "/tmp/tscode-lsp-code-action-1/main.rs";
    let uri = path_to_file_uri(file);
    let actions = json(&format!(
        r#"[
            {{
                "title": "Import missing item",
                "kind": "quickfix",
                "isPreferred": true,
                "edit": {{
                    "changes": {{
                        "{uri}": [
                            {{
                                "range": {{
                                    "start": {{ "line": 0, "character": 0 }},
                                    "end": {{ "line": 0, "character": 0 }}
                                }},
                                "newText": "use crate::thing;\n"
                            }}
                        ]
                    }}
                }}
            }},
            {{
                "title": "Run command action",
                "command": "mock.runAction",
                "arguments": [
                    {{ "uri": "{uri}" }}
                ]
            }},
            {{
                "title": "Run object command action",
                "command": {{
                    "title": "Apply object command",
                    "command": "mock.applyObjectAction",
                    "arguments": [
                        {{ "uri": "{uri}", "line": 0 }}
                    ]
                }}
            }}
        ]"#
    ));

    let parsed = parse_code_actions(Some(&actions), "mock-actions", Platform::Unix);
    assert_eq!(parsed.len(), 3);
    assert_eq!(parsed[0].title, "Import missing item");
    assert_eq!(parsed[0].kind.as_deref(), Some("quickfix"));
    assert!(parsed[0].is_preferred);
    let edit = parsed[0].edit.as_ref().expect("workspace edit");
    assert_eq!(edit.server, "mock-actions");
    assert_eq!(edit.edits.len(), 1);
    assert_eq!(edit.edits[0].path, file);
    assert_eq!(edit.edits[0].new_text, "use crate::thing;\n");
    assert_eq!(parsed[1].command_title.as_deref(), Some("Run command action"));
    let command = parsed[1].command.as_ref().expect("command");
    assert_eq!(command.title, "Run command action");
    assert_eq!(command.command, "mock.runAction");
    assert_eq!(command.arguments, vec![json(&format!(r#"{{ "uri": "{uri}" }}"#))]);
    assert!(parsed[1].edit.is_none());
    assert_eq!(parsed[2].command_title.as_deref(), Some("Apply object command"));
    let command = parsed[2].command.as_ref().expect("object command");
    assert_eq!(command.command, "mock.applyObjectAction");
    assert_eq!(command.arguments, vec![json(&format!(r#"{{ "uri": "{uri}", "line": 0 }}"#))]);
}

#[test]
fn parses_publish_diagnostics_notification() {
    let file = "/tmp/tscode-lsp-diagnostics-1/main.rs";
    let text = "fn main() {\n    let icon = \"🦀\";\n}\n";
    let value = json(&format!(
        r#"{{
            "jsonrpc": "2.0",
            "method": "textDocument/publishDiagnostics",
            "params": {{
                "uri": "{uri}",
                "diagnostics": [
                    {{
                        "range": {{
                            "start": {{ "line": 1, "character": {character} }},
                            "end": {{ "line": 1, "character": 99 }}
                        }},
                        "severity": 1,
                        "source": "mock",
                        "code": 123,
                        "message": "expected semicolon"
                    }},
                    {{
                        "range": {{
                            "start": {{ "line": 0, "character": 0 }},
                            "end": {{ "line": 0, "character": 2 }}
                        }},
                        "severity": 4,
                        "message": "hint text"
                    }}
                ]
            }}
        }}"#,
        uri = path_to_file_uri(file),
        character = "    let icon = \"🦀\"".encode_utf16().count(),
    ));

    let diagnostics =
        parse_publish_diagnostics(&value, &document(file, text), "mock-lsp").expect("diagnostics");
    assert_eq!(diagnostics.len(), 2);
    assert_eq!(diagnostics[0].path, file);
    assert_eq!(diagnostics[0].line, 1);
    assert_eq!(diagnostics[0].col, "    let icon = \"🦀\"".chars().count());
    assert_eq!(diagnostics[0].severity, LspDiagnosticSeverity::Error);
    assert_eq!(diagnostics[0].source.as_deref(), Some("mock"));
    assert_eq!(diagnostics[0].code.as_deref(), Some("123"));
    assert_eq!(diagnostics[1].severity, LspDiagnosticSeverity::Hint);
}

#[test]
fn reads_publish_diagnostics_from_mock_stdio_language_server() {
    let file = "/tmp/tscode-lsp-diagnostics-2/main.rs";
    let text = "fn main() {\n    missing();\n}\n";
    let notification = json(&format!(
        r#"{{
            "jsonrpc": "2.0",
            "method": "textDocument/publishDiagnostics",
            "params": {{
                "uri": "{uri}",
                "diagnostics": [
                    {{
                        "range": {{
                            "start": {{ "line": 1, "character": 4 }},
                            "end": {{ "line": 1, "character": 11 }}
                        }},
                        "severity": 1,
                        "source": "mock-checker",
                        "code": "E0425",
                        "message": "cannot find function `missing`"
                    }}
                ]
            }}
        }}"#,
        uri = path_to_file_uri(file),
    ));
    let mut server = |message: &Json| match method(message).as_str() {
        "initialize" => vec![json(
            r#"{"jsonrpc":"2.0","id":1,"result":{"capabilities":{"textDocumentSync":1}}}"#,
        )],
        "textDocument/didOpen" => vec![notification.copy()],
        "shutdown" => vec![json(r#"{"jsonrpc":"2.0","id":3,"result":null}"#)],
        _ => vec![],
    };

    let position = position(file, text, 1, 4);
    let mut exchange =
        client::request_diagnostics_with_config(&position, config("mock-diagnostics"), "0.1.0");
    converse(&mut exchange, &mut server);
    let diagnostics = client::diagnostics_answer(&exchange, NO_NAMES, NO_FILES);
    assert_eq!(diagnostics.len(), 1);
    assert_eq!(diagnostics[0].server, "mock-diagnostics");
    assert_eq!(diagnostics[0].severity, LspDiagnosticSeverity::Error);
    assert_eq!(diagnostics[0].message, "cannot find function `missing`");
    assert_eq!(diagnostics[0].source.as_deref(), Some("mock-checker"));
    assert_eq!(diagnostics[0].code.as_deref(), Some("E0425"));
}

#[test]
fn reads_code_actions_from_mock_stdio_language_server() {
    let file = "/tmp/tscode-lsp-code-action-2/main.rs";
    let text = "fn main() {\n    old_name();\n}\n";
    let response = json(&format!(
        r#"{{
            "jsonrpc": "2.0",
            "id": 2,
            "result": [
                {{
                    "title": "Replace old_name with new_name",
                    "kind": "quickfix",
                    "isPreferred": true,
                    "edit": {{
                        "changes": {{
                            "{uri}": [
                                {{
                                    "range": {{
                                        "start": {{ "line": 1, "character": 4 }},
                                        "end": {{ "line": 1, "character": 12 }}
                                    }},
                                    "newText": "new_name"
                                }}
                            ]
                        }}
                    }}
                }}
            ]
        }}"#,
        uri = path_to_file_uri(file),
    ));
    let mut server =
        answering("textDocument/codeAction", response, r#"{"jsonrpc":"2.0","id":2,"result":[]}"#);

    let position = position(file, text, 1, 4);
    let mut exchange = client::request_code_actions_with_config(
        &position,
        &Vec::new(),
        &Vec::new(),
        config("mock-code-action"),
        "0.1.0",
    );
    converse(&mut exchange, &mut server);
    let actions = client::code_actions_answer(&exchange);
    assert_eq!(actions.len(), 1);
    assert_eq!(actions[0].title, "Replace old_name with new_name");
    assert_eq!(actions[0].server, "mock-code-action");
    let edit = actions[0].edit.as_ref().expect("workspace edit");
    assert_eq!(edit.edits.len(), 1);
    assert_eq!(edit.edits[0].path, file);
    assert_eq!(edit.edits[0].new_text, "new_name");
}

#[test]
fn reads_formatting_edits_from_mock_stdio_language_server() {
    let file = "/tmp/tscode-lsp-format-1/main.rs";
    let text = "fn main(){println!(\"hi\");}\n";
    let response = json(
        r#"{
            "jsonrpc": "2.0",
            "id": 2,
            "result": [
                {
                    "range": {
                        "start": { "line": 0, "character": 0 },
                        "end": { "line": 1, "character": 0 }
                    },
                    "newText": "fn main() {\n    println!(\"hi\");\n}\n"
                }
            ]
        }"#,
    );
    let mut server =
        answering("textDocument/formatting", response, r#"{"jsonrpc":"2.0","id":2,"result":[]}"#);

    let position = position(file, text, 0, 0);
    let mut exchange =
        client::request_formatting_with_config(&position, config("mock-format"), "0.1.0");
    converse(&mut exchange, &mut server);
    let edit = client::formatting_answer(&exchange).expect("formatting edit");
    assert_eq!(edit.server, "mock-format");
    assert_eq!(edit.edits.len(), 1);
    assert_eq!(edit.edits[0].path, file);
    assert_eq!(edit.edits[0].new_text, "fn main() {\n    println!(\"hi\");\n}\n");
}

#[test]
fn executes_code_action_command_and_collects_workspace_apply_edit() {
    let file = "/tmp/tscode-lsp-code-action-command-1/main.rs";
    let text = "fn main() {\n    old_name();\n}\n";
    let uri = path_to_file_uri(file);
    let apply_edit = json(&format!(
        r#"{{
            "jsonrpc": "2.0",
            "id": 50,
            "method": "workspace/applyEdit",
            "params": {{
                "label": "Apply command quick fix",
                "edit": {{
                    "changes": {{
                        "{uri}": [
                            {{
                                "range": {{
                                    "start": {{ "line": 1, "character": 4 }},
                                    "end": {{ "line": 1, "character": 12 }}
                                }},
                                "newText": "new_name"
                            }}
                        ]
                    }}
                }}
            }}
        }}"#
    ));
    let error_response = r#"{
        "jsonrpc": "2.0",
        "id": 2,
        "error": {
            "code": -32000,
            "message": "apply edit was not acknowledged"
        }
    }"#;
    let mut server = |message: &Json| match method(message).as_str() {
        "initialize" => vec![json(
            r#"{"jsonrpc":"2.0","id":1,"result":{"capabilities":{"executeCommandProvider":{"commands":["mock.applyFix"]}}}}"#,
        )],
        "workspace/executeCommand" => vec![apply_edit.copy()],
        "" => {
            let applied = message.get("result").and_then(|result| result.get("applied"));
            if applied == Some(&Json::Bool(true)) {
                vec![json(r#"{"jsonrpc": "2.0", "id": 2, "result": null}"#)]
            } else {
                vec![json(error_response)]
            }
        }
        "shutdown" => vec![json(r#"{"jsonrpc":"2.0","id":3,"result":null}"#)],
        _ => vec![],
    };

    let position = position(file, text, 1, 4);
    let command = LspCommand {
        title: "Apply command quick fix".to_owned(),
        command: "mock.applyFix".to_owned(),
        arguments: vec![json(&format!(r#"{{ "uri": "{uri}" }}"#))],
    };
    let mut exchange = client::request_execute_command_with_config(
        &position,
        &command,
        config("mock-command-action"),
        "0.1.0",
    );
    let sent = converse(&mut exchange, &mut server);
    assert_eq!(sent[4].get("id"), Some(&Json::Number(JsonNumber::PosInt(50))));
    let edit = client::command_answer(exchange).expect("workspace edit");
    assert_eq!(edit.server, "mock-command-action");
    assert_eq!(edit.edits.len(), 1);
    assert_eq!(edit.edits[0].path, file);
    assert_eq!(edit.edits[0].new_text, "new_name");
}

#[test]
fn reads_rename_workspace_edit_from_mock_stdio_language_server() {
    let file = "/tmp/tscode-lsp-rename-1/main.rs";
    let text = "fn old_name() {}\n";
    let response = json(&format!(
        r#"{{
            "jsonrpc": "2.0",
            "id": 2,
            "result": {{
                "changes": {{
                    "{uri}": [
                        {{
                            "range": {{
                                "start": {{ "line": 0, "character": 3 }},
                                "end": {{ "line": 0, "character": 11 }}
                            }},
                            "newText": "new_name"
                        }}
                    ]
                }}
            }}
        }}"#,
        uri = path_to_file_uri(file),
    ));
    let mut server =
        answering("textDocument/rename", response, r#"{"jsonrpc":"2.0","id":2,"result":null}"#);

    let position = position(file, text, 0, 4);
    let mut exchange = client::request_rename_with_config(
        &position,
        "new_name",
        config("mock-rename-lsp"),
        "0.1.0",
    );
    converse(&mut exchange, &mut server);
    let edit = client::rename_answer(&exchange).expect("rename edit");
    assert_eq!(edit.server, "mock-rename-lsp");
    assert_eq!(edit.edits.len(), 1);
    assert_eq!(edit.edits[0].path, file);
    assert_eq!(edit.edits[0].start_utf16_col, 3);
    assert_eq!(edit.edits[0].new_text, "new_name");
}

#[test]
fn reads_references_from_mock_stdio_language_server() {
    let file = "/tmp/tscode-lsp-refs-1/main.rs";
    let text = "hello();\nfn hello() {}\n";
    let response = json(&format!(
        r#"{{
            "jsonrpc": "2.0",
            "id": 2,
            "result": [
                {{
                    "uri": "{uri}",
                    "range": {{
                        "start": {{ "line": 0, "character": 0 }},
                        "end": {{ "line": 0, "character": 5 }}
                    }}
                }},
                {{
                    "uri": "{uri}",
                    "range": {{
                        "start": {{ "line": 1, "character": 3 }},
                        "end": {{ "line": 1, "character": 8 }}
                    }}
                }}
            ]
        }}"#,
        uri = path_to_file_uri(file),
    ));
    let mut server =
        answering("textDocument/references", response, r#"{"jsonrpc":"2.0","id":2,"result":null}"#);

    let position = position(file, text, 0, 1);
    let mut exchange =
        client::request_references_with_config(&position, config("mock-refs-lsp"), "0.1.0");
    converse(&mut exchange, &mut server);
    let references = client::locations_answer(&exchange, NO_NAMES, NO_FILES);
    assert_eq!(references.len(), 2);
    assert_eq!(references[0].line, 0);
    assert_eq!(references[0].col, 0);
    assert_eq!(references[1].line, 1);
    assert_eq!(references[1].col, 3);
    assert_eq!(references[1].preview.as_deref(), Some("fn hello() {}"));
}

#[test]
fn talks_to_mock_stdio_language_server() {
    let file = "/tmp/tscode-lsp-mock-1/main.rs";
    let text = "fn main() {\n    hello();\n}\n";
    let response = json(
        r#"{"jsonrpc":"2.0","id":2,"result":{"contents":{"kind":"markdown","value":"**hello** from mock LSP"}}}"#,
    );
    let mut server =
        answering("textDocument/hover", response, r#"{"jsonrpc":"2.0","id":2,"result":null}"#);

    let position = position(file, text, 1, 5);
    let mut exchange =
        client::request_hover_with_config(&position, config("mock-lsp"), "0.1.0");
    let sent = converse(&mut exchange, &mut server);
    let hover = client::hover_answer(&exchange).expect("mock hover");
    assert_eq!(hover.server, "mock-lsp");
    assert_eq!(hover.contents, "**hello** from mock LSP");

    let methods: Vec<String> = sent.iter().map(method).collect();
    assert_eq!(
        methods,
        [
            "initialize",
            "initialized",
            "textDocument/didOpen",
            "textDocument/hover",
            "shutdown",
            "exit",
        ]
    );
    assert_eq!(
        sorted(&sent[3]),
        json(&format!(
            r#"{{"jsonrpc":"2.0","id":2,"method":"textDocument/hover","params":{{"textDocument":{{"uri":"{}"}},"position":{{"line":1,"character":5}}}}}}"#,
            path_to_file_uri(file)
        ))
    );
}

#[test]
fn a_server_that_does_not_start_answers_nothing() {
    let position = position("/tmp/a.rs", "", 0, 0);
    let mut exchange = client::request_hover_with_config(&position, config("gone"), "0.1.0");
    assert_eq!(exchange.next(ExchangeEvent::Begin), ExchangeAction::Start);
    assert_eq!(exchange.next(ExchangeEvent::StartFailed), ExchangeAction::Done);
    assert_eq!(client::hover_answer(&exchange), None);
}

#[test]
fn a_silent_server_is_killed() {
    let position = position("/tmp/a.rs", "", 0, 0);
    let mut exchange = client::request_hover_with_config(&position, config("mute"), "0.1.0");
    assert_eq!(exchange.next(ExchangeEvent::Begin), ExchangeAction::Start);
    assert!(matches!(exchange.next(ExchangeEvent::Started), ExchangeAction::Send(_)));
    assert_eq!(exchange.next(ExchangeEvent::Sent), ExchangeAction::Receive(Wait::Request));
    assert_eq!(exchange.next(ExchangeEvent::Silence), ExchangeAction::Kill);
    assert_eq!(exchange.next(ExchangeEvent::Closed), ExchangeAction::Done);
}

#[test]
fn an_error_reply_answers_nothing() {
    let position = position("/tmp/a.rs", "x", 0, 0);
    let mut server = answering(
        "textDocument/hover",
        json(r#"{"jsonrpc":"2.0","id":2,"error":{"code":-32601,"message":"no"}}"#),
        "null",
    );
    let mut exchange = client::request_hover_with_config(&position, config("mock"), "0.1.0");
    converse(&mut exchange, &mut server);
    assert_eq!(client::hover_answer(&exchange), None);
}

#[test]
fn a_request_of_the_server_is_refused_unless_it_is_an_edit() {
    let position = position("/tmp/a.rs", "x", 0, 0);
    let command = LspCommand {
        title: "c".to_owned(),
        command: "c".to_owned(),
        arguments: Vec::new(),
    };
    let mut server = |message: &Json| match method(message).as_str() {
        "initialize" => vec![json(r#"{"jsonrpc":"2.0","id":1,"result":{}}"#)],
        "workspace/executeCommand" => vec![
            json(r#"{"jsonrpc":"2.0","id":7,"method":"workspace/configuration","params":{}}"#),
            json(r#"{"jsonrpc":"2.0","id":2,"result":null}"#),
        ],
        "shutdown" => vec![json(r#"{"jsonrpc":"2.0","id":3,"result":null}"#)],
        _ => vec![],
    };
    let mut exchange =
        client::request_execute_command_with_config(&position, &command, config("mock"), "0.1.0");
    let sent = converse(&mut exchange, &mut server);
    assert_eq!(sent[4].get("id"), Some(&Json::Number(JsonNumber::PosInt(7))));
    assert!(sent[4].get("error").is_some());
    assert_eq!(client::command_answer(exchange), None);
}

#[test]
fn questions_about_unknown_files_are_not_asked() {
    let position = position("/tmp/notes.txt", "x", 0, 0);
    assert!(client::hover(&position, &settings(), "0.1.0").is_none());
    assert!(client::definitions(&position, &settings(), "0.1.0").is_none());
    assert!(client::diagnostics(&position, &settings(), "0.1.0").is_none());
}

#[test]
fn each_question_has_its_method() {
    let position = position("/tmp/a.rs", "x", 0, 0);
    let none: Vec<LspDiagnostic> = Vec::new();
    let no_aliases: Vec<String> = Vec::new();
    let exchanges = [
        client::hover(&position, &settings(), "1").unwrap(),
        client::definitions(&position, &settings(), "1").unwrap(),
        client::references(&position, &settings(), "1").unwrap(),
        client::completions(&position, &settings(), "1").unwrap(),
        client::code_actions(&position, &none, &no_aliases, &settings(), "1").unwrap(),
        client::formatting(&position, &settings(), "1").unwrap(),
        client::rename(&position, "y", &settings(), "1").unwrap(),
    ];
    let methods: Vec<&str> = exchanges.iter().map(|exchange| exchange.method.as_str()).collect();
    assert_eq!(
        methods,
        [
            "textDocument/hover",
            "textDocument/definition",
            "textDocument/references",
            "textDocument/completion",
            "textDocument/codeAction",
            "textDocument/formatting",
            "textDocument/rename",
        ]
    );
    assert!(exchanges.iter().all(|exchange| exchange.config.name == "rust-analyzer"));
}

#[test]
fn an_action_without_a_command_is_not_executed() {
    let position = position("/tmp/a.rs", "x", 0, 0);
    let mut action = LspCodeAction {
        title: "t".to_owned(),
        kind: None,
        is_preferred: false,
        edit: None,
        command_title: None,
        command: None,
        server: "s".to_owned(),
    };
    assert!(client::execute_code_action_command(&position, &action, &settings(), "1").is_none());
    action.command = Some(LspCommand {
        title: "t".to_owned(),
        command: "do".to_owned(),
        arguments: Vec::new(),
    });
    let exchange =
        client::execute_code_action_command(&position, &action, &settings(), "1").unwrap();
    assert_eq!(sorted(&exchange.params), json(r#"{"command":"do","arguments":[]}"#));
}

#[test]
fn servers_go_by_extension_and_settings() {
    let name = |path: &str| server_name_for_path(path, &settings(), Platform::Unix);
    assert_eq!(name("/w/main.rs").as_deref(), Some("rust-analyzer"));
    assert_eq!(name("/w/a.PYW").as_deref(), Some("pyright-langserver"));
    assert_eq!(name("/w/a.tsx").as_deref(), Some("typescript-language-server"));
    assert_eq!(name("/w/a.go").as_deref(), Some("gopls"));
    assert_eq!(name("/w/a.hxx").as_deref(), Some("clangd"));
    assert_eq!(name("/w/Makefile"), None);
    let python = language_server_for_path("/w/a.py", &settings(), Platform::Unix).unwrap();
    assert_eq!(python.args, ["--stdio"]);
    assert_eq!(python.language_id, "python");

    let chosen = LspSettings {
        command: Some("my-server --log x".to_owned()),
        language_id: None,
        name: None,
    };
    let config = env_language_server("/w/a.rs", &chosen, Platform::Unix).unwrap();
    assert_eq!(config.command, "my-server");
    assert_eq!(config.args, ["--log", "x"]);
    assert_eq!(config.language_id, "rust");
    let blank = LspSettings { command: Some("  ".to_owned()), language_id: None, name: None };
    assert_eq!(server_name_for_path("/w/a.txt", &blank, Platform::Unix), None);
    let on = |platform| server_name_for_path("C:\\x.rs\\Makefile", &settings(), platform);
    assert_eq!(on(Platform::Windows), None);
    assert_eq!(on(Platform::Unix), None);
    let on = |platform| server_name_for_path("a.d\\b.rs", &settings(), platform);
    assert_eq!(on(Platform::Windows).as_deref(), Some("rust-analyzer"));
}

#[test]
fn commands_are_split_at_white_space() {
    assert_eq!(split_command_words(" a  b\tc "), ["a", "b", "c"]);
    assert!(split_command_words(" ").is_empty());
}

#[test]
fn columns_count_characters_or_utf16_units() {
    let line = "a🦀b";
    assert_eq!(char_col_to_utf16(line, 0), 0);
    assert_eq!(char_col_to_utf16(line, 2), 3);
    assert_eq!(char_col_to_utf16(line, 9), 4);
    assert_eq!(utf16_col_to_char_col(line, 3), 2);
    assert_eq!(utf16_col_to_char_col(line, 2), 1);
    assert_eq!(utf16_col_to_char_col(line, 99), 3);
    for col in 0..=3 {
        assert_eq!(utf16_col_to_char_col(line, char_col_to_utf16(line, col)), col);
    }
}

#[test]
fn percent_encoding_keeps_plain_characters() {
    assert_eq!(percent_encode_path("/a-b_c.d~/é%"), "/a-b_c.d~/%C3%A9%25");
    assert_eq!(percent_decode("%C3%A9%25").as_deref(), Some("é%"));
    assert_eq!(percent_decode("%zz"), None);
    assert_eq!(percent_decode("%4"), None);
    assert_eq!(percent_decode("%ff"), None);
    assert_eq!(hex_value(b'f'), Some(15));
    assert_eq!(hex_value(b'g'), None);
    assert_eq!(file_uri_to_path("http://x", Platform::Unix), None);
}

#[test]
fn messages_are_framed_and_read_back() {
    let body = r#"{"a":"é"}"#;
    let message = frame_message(body);
    assert_eq!(message, format!("Content-Length: 10\r\n\r\n{body}"));
    let mut reader = HeaderReader::new();
    assert_eq!(reader.read_line("Content-Type: json\r\n"), HeaderStep::More);
    assert_eq!(reader.read_line("Content-Length: 10\r\n"), HeaderStep::More);
    assert_eq!(reader.read_line("\r\n"), HeaderStep::Body(10));
    let mut reader = HeaderReader::new();
    assert_eq!(reader.read_line(""), HeaderStep::End);
    let mut reader = HeaderReader::new();
    assert_eq!(reader.read_line("Content-Length: 10\r\n"), HeaderStep::More);
    assert_eq!(reader.read_line(""), HeaderStep::End);
    let mut reader = HeaderReader::new();
    assert_eq!(reader.read_line("\r\n"), HeaderStep::End);
    let mut reader = HeaderReader::new();
    assert_eq!(reader.read_line("content-length: 10\r\n"), HeaderStep::More);
    assert_eq!(reader.read_line("\r\n"), HeaderStep::MissingLength);
}

#[test]
fn severities_have_numbers_and_labels() {
    let all = [
        (1, LspDiagnosticSeverity::Error),
        (2, LspDiagnosticSeverity::Warning),
        (3, LspDiagnosticSeverity::Information),
        (4, LspDiagnosticSeverity::Hint),
    ];
    for (number, severity) in all {
        let value = Json::Number(JsonNumber::PosInt(number));
        assert_eq!(LspDiagnosticSeverity::from_lsp_value(Some(&value)), severity);
        assert_eq!(severity.as_lsp_number(), number);
    }
    assert_eq!(LspDiagnosticSeverity::from_lsp_value(None), LspDiagnosticSeverity::Unknown);
    assert_eq!(LspDiagnosticSeverity::Error.label(), "error");
    assert_eq!(LspDiagnosticSeverity::Hint.label(), "help");
}

#[test]
fn completions_come_from_lists_and_arrays() {
    let list = json(
        r#"{"items":[{"label":"a","detail":"d","insertText":"a()"},{"label":"b"},{"detail":"x"}]}"#,
    );
    let found = parse_completions(Some(&list), "s");
    assert_eq!(found.len(), 2);
    assert_eq!(found[0].insert_text.as_deref(), Some("a()"));
    assert_eq!(found[0].detail.as_deref(), Some("d"));
    assert_eq!(found[1].label, "b");
    let array = json(r#"[{"label":"c"}]"#);
    assert_eq!(parse_completions(Some(&array), "s")[0].label, "c");
    assert!(parse_completions(None, "s").is_empty());
}

#[test]
fn locations_come_from_links_too() {
    let link = json(
        r#"{"targetUri":"file:///w/a.rs","targetRange":{"start":{"line":1,"character":2}},"targetSelectionRange":{"start":{"line":0,"character":3}}}"#,
    );
    let found = parse_locations(Some(&link), &document("/w/a.rs", "  🦀x\n"), "s");
    assert_eq!(found.len(), 1);
    assert_eq!((found[0].line, found[0].col), (0, 2));
    assert_eq!(found[0].preview.as_deref(), Some("🦀x"));
    assert!(parse_locations(Some(&Json::Null), &document("/w/a.rs", ""), "s").is_empty());
}

#[test]
fn codes_are_texts_or_numbers() {
    assert_eq!(diagnostic_code(Some(&json("\"E1\""))).as_deref(), Some("E1"));
    assert_eq!(diagnostic_code(Some(&json("7"))).as_deref(), Some("7"));
    assert_eq!(diagnostic_code(Some(&json("true"))), None);
    assert_eq!(diagnostic_code(None), None);
}

#[test]
fn problems_of_a_document_go_along_with_a_question_for_actions() {
    let position = position("/w/a.rs", "let x;\nfoo\n", 0, 2);
    let problem = |path: &str, line: usize| LspDiagnostic {
        path: path.to_owned(),
        line,
        col: 0,
        severity: LspDiagnosticSeverity::Warning,
        message: "m".to_owned(),
        source: None,
        code: None,
        server: "s".to_owned(),
    };
    let all = vec![problem("/w/a.rs", 0), problem("/w/b.rs", 0), problem("/link/a.rs", 0)];
    let aliases = vec!["/link/a.rs".to_owned()];
    let value = params::code_action_params(&position, &all, &aliases);
    let context = value.get("context").unwrap();
    assert_eq!(context.get("diagnostics").unwrap().as_array().unwrap().len(), 2);
}

#[test]
fn values_are_written_and_read() {
    let text = r#"{"a":[null,true,-3,18446744073709551615,1.5,"é\n"],"b":{}}"#;
    let value = json(text);
    assert_eq!(
        value.get("a"),
        Some(&Json::Array(vec![
            Json::Null,
            Json::Bool(true),
            Json::Number(JsonNumber::NegInt(-3)),
            Json::Number(JsonNumber::PosInt(u64::MAX)),
            Json::Number(JsonNumber::Float("1.5".to_owned())),
            Json::Str("é\n".to_owned()),
        ]))
    );
    assert_eq!(encode(&value), text);
    let unsorted = Json::Object(vec![
        ("b".to_owned(), Json::Null),
        ("a".to_owned(), Json::Bool(false)),
    ]);
    assert_eq!(encode(&unsorted), r#"{"a":false,"b":null}"#);
    assert_eq!(
        encode_message(&unsorted),
        "Content-Length: 20\r\n\r\n{\"a\":false,\"b\":null}"
    );
    assert_eq!(decode(b"{"), None);
    assert_eq!(decode(b"\"\xff\""), None);
}

#[test]
fn messages_are_read_back_as_the_values_they_were_made_of() {
    let mut value = Json::Object(vec![
        ("".to_owned(), Json::Number(JsonNumber::NegInt(i64::MIN))),
        ("Z".to_owned(), Json::Number(JsonNumber::PosInt(u64::MAX))),
        ("a\"\\\u{1}\u{2028}".to_owned(), Json::Str("\u{0}\t/é🦀".to_owned())),
        ("z".to_owned(), Json::Array(vec![Json::Null, Json::Object(Vec::new())])),
        ("\u{ffff}".to_owned(), Json::Bool(true)),
        ("\u{10000}".to_owned(), Json::Bool(false)),
    ]);
    let message = encode_message(&value);
    let start = message.find("\r\n\r\n").unwrap();
    let mut reader = HeaderReader::new();
    assert_eq!(reader.read_line(&message[..start + 2]), HeaderStep::More);
    let body = &message.as_bytes()[start + 4..];
    assert_eq!(reader.read_line("\r\n"), HeaderStep::Body(body.len()));
    assert_eq!(decode(body), Some(value.copy()));
    for _ in 0..124 {
        value = Json::Array(vec![value]);
    }
    assert_eq!(decode(encode(&value).as_bytes()), Some(value.copy()));
    value = Json::Array(vec![value]);
    assert_eq!(decode(encode(&value).as_bytes()), None);
}

#[test]
fn a_document_is_told_by_the_components_of_its_path() {
    let place = |uri: &str| {
        json(&format!(
            r#"{{"uri":"{uri}","range":{{"start":{{"line":0,"character":2}},"end":{{"line":0,"character":3}}}}}}"#
        ))
    };
    let aliases = vec!["/link/a.rs".to_owned()];
    let others = vec![FileText { path: "/w/b.rs".to_owned(), text: "other\n".to_owned() }];
    let known = KnownFiles {
        path: "/w/a.rs",
        text: "own\n",
        aliases: &aliases,
        others: &others,
        platform: Platform::Unix,
    };
    let preview = |uri: &str| {
        let found = parse_locations(Some(&place(uri)), &known, "s");
        found[0].preview.clone()
    };
    assert_eq!(preview("file:///w/a.rs").as_deref(), Some("own"));
    assert_eq!(preview("file:///w/./a.rs").as_deref(), Some("own"));
    assert_eq!(preview("file:////w//a.rs/").as_deref(), Some("own"));
    assert_eq!(preview("file:///link/a.rs").as_deref(), Some("own"));
    assert_eq!(preview("file:///link/./a.rs"), None);
    assert_eq!(preview("file:///w/b.rs").as_deref(), Some("other"));
    assert_eq!(preview("file:///w/../w/a.rs"), None);
    assert!(params::same_path("/w/./a.rs", "/w/a.rs", &Vec::new(), Platform::Unix));
    assert!(!params::same_path("w/a.rs", "/w/a.rs", &Vec::new(), Platform::Unix));
}

#[test]
fn paths_of_uris_go_by_the_platform() {
    let uri = "file:///C:/a%20b/c.rs";
    assert_eq!(file_uri_to_path(uri, Platform::Windows).as_deref(), Some("C:/a b/c.rs"));
    assert_eq!(file_uri_to_path(uri, Platform::Unix).as_deref(), Some("/C:/a b/c.rs"));
    assert_eq!(file_uri_to_path("file://C:/x", Platform::Windows).as_deref(), Some("C:/x"));
    assert_eq!(file_uri_to_path("file:////s/h", Platform::Windows).as_deref(), Some("/s/h"));
    let written = path_to_file_uri("C:\\a b\\c.rs");
    assert_eq!(written, "file://C:/a%20b/c.rs");
    assert_eq!(file_uri_to_path(&written, Platform::Windows).as_deref(), Some("C:/a b/c.rs"));
    let edit = json(
        r#"{"changes":{"file:///C:/x.rs":[{"range":{"start":{"line":0,"character":0},"end":{"line":0,"character":0}},"newText":"n"}]}}"#,
    );
    let edit = parse_workspace_edit(Some(&edit), "s", Platform::Windows).unwrap();
    assert_eq!(edit.edits[0].path, "C:/x.rs");
    assert!(params::same_path("c:/x.rs", "C:\\x.rs", &Vec::new(), Platform::Windows));
    assert!(!params::same_path("c:/X.rs", "C:\\x.rs", &Vec::new(), Platform::Windows));
}
