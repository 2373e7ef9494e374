//! What the replies and notifications of a language server mean.

use vstd::prelude::*;

use crate::json;
use crate::json::Json;
use crate::json::JsonNumber;
use crate::json::JsonView;
use crate::json::NumberView;
use crate::lsp;
use crate::lsp::columns;
use crate::lsp::params;
use crate::lsp::CodeActionView;
use crate::lsp::CommandView;
use crate::lsp::CompletionView;
use crate::lsp::DiagnosticView;
use crate::lsp::FileView;
use crate::lsp::KnownFiles;
use crate::lsp::KnownView;
use crate::lsp::LocationView;
use crate::lsp::LspCodeAction;
use crate::lsp::LspCommand;
use crate::lsp::LspCompletion;
use crate::lsp::LspDiagnostic;
use crate::lsp::LspDiagnosticSeverity;
use crate::lsp::LspLocation;
use crate::lsp::LspTextEdit;
use crate::lsp::LspWorkspaceEdit;
use crate::lsp::TextEditView;
use crate::lsp::WorkspaceEditView;
use crate::lsp::uri;
use crate::path::Platform;
use crate::text;

verus! {

/// The text of a marked string, of a markup value, or of a list of them: the
/// parts of a list that are not blank, with an empty line between them.
pub open spec fn marked(value: JsonView) -> Seq<char>
    decreases value,
{
    match value {
        JsonView::Str(text) => text,
        JsonView::Array(items) => text::joined(marked_parts(items), "\n\n"@),
        JsonView::Object(entries) => {
            let value_at = json::key_index(entries, "value"@) as int;
            let contents_at = json::key_index(entries, "contents"@) as int;
            if value_at < entries.len() {
                marked(entries[value_at].1)
            } else if contents_at < entries.len() {
                marked(entries[contents_at].1)
            } else {
                Seq::empty()
            }
        },
        _ => Seq::empty(),
    }
}

/// The texts of the items that are not blank.
pub open spec fn marked_parts(items: Seq<JsonView>) -> Seq<Seq<char>>
    decreases items,
{
    if items.len() == 0 {
        Seq::empty()
    } else {
        let before = marked_parts(items.drop_last());
        let part = marked(items.last());
        if text::trimmed(part).len() == 0 {
            before
        } else {
            before.push(part)
        }
    }
}

pub fn marked_text(value: &Json) -> (out: String)
    ensures
        out@ == marked(value@),
    decreases value,
{
    broadcast use json::group_json_views;

    match value {
        Json::Str(text) => text.clone(),
        Json::Array(items) => {
            let mut parts: Vec<String> = Vec::new();
            for i in 0..items.len()
                invariant
                    value matches Json::Array(v) && v == items,
                    text::texts(parts@) == marked_parts(json::items_view(items@).take(i as int)),
            {
                let part = marked_text(&items[i]);
                let ghost all = json::items_view(items@);
                let ghost before = parts@;
                assert(all.take(i + 1).drop_last() =~= all.take(i as int));
                if !text::is_blank(&part) {
                    parts.push(part);
                    assert(text::texts(parts@) =~= text::texts(before).push(part@));
                }
            }
            assert(json::items_view(items@).take(items@.len() as int) =~= json::items_view(items@));
            text::join(&parts, "\n\n")
        },
        Json::Object(entries) => {
            match json::find_key(entries, "value") {
                Some(i) => marked_text(&entries[i].1),
                None => match json::find_key(entries, "contents") {
                    Some(i) => marked_text(&entries[i].1),
                    None => String::new(),
                },
            }
        },
        _ => String::new(),
    }
}

/// The text of a hover reply, unless it is blank.
pub open spec fn hover_text(result: Option<JsonView>) -> Option<Seq<char>> {
    match result {
        None => None,
        Some(JsonView::Null) => None,
        Some(value) => {
            let contents = match value.get("contents"@) {
                Some(inner) => inner,
                None => value,
            };
            let text = text::trimmed(marked(contents));
            if text.len() == 0 {
                None
            } else {
                Some(text)
            }
        },
    }
}

pub fn hover_contents(result: Option<&Json>) -> (contents: Option<String>)
    ensures
        text::maybe(contents) == hover_text(json::maybe(result)),
{
    match result {
        None => None,
        Some(value) => {
            if value.is_null() {
                return None;
            }
            let marked = match value.get("contents") {
                Some(inner) => marked_text(inner),
                None => marked_text(value),
            };
            let trimmed = text::trim(&marked);
            if trimmed.as_str().is_empty() {
                None
            } else {
                Some(trimmed)
            }
        },
    }
}

/// The text of the first of several files that has this path.
pub open spec fn file_text(files: Seq<FileView>, path: Seq<char>) -> Option<Seq<char>>
    decreases files.len(),
{
    if files.len() == 0 {
        None
    } else if files[0].path == path {
        Some(files[0].text)
    } else {
        file_text(files.drop_first(), path)
    }
}

/// A line of a known file: of the document as it stands, or of another file.
pub open spec fn line_text(known: KnownView, path: Seq<char>, line: usize) -> Option<Seq<char>> {
    if params::names_document(path, known.path, known.aliases, known.platform) {
        text::line_at(known.text, line as nat)
    } else {
        match file_text(known.others, path) {
            Some(text) => text::line_at(text, line as nat),
            None => None,
        }
    }
}

pub fn line_text_for_path(path: &str, line: usize, known: &KnownFiles<'_>) -> (found: Option<String>)
    ensures
        text::maybe(found) == line_text(known@, path@, line),
{
    if params::same_path(path, known.path, known.aliases, known.platform) {
        return text::nth_line(known.text, line);
    }
    let files = known.others;
    let mut i: usize = 0;
    proof {
        assert(lsp::files_view(files@).skip(0) =~= lsp::files_view(files@));
    }
    while i < files.len()
        invariant
            i <= files@.len(),
            files == known.others,
            !params::names_document(path@, known@.path, known@.aliases, known@.platform),
            file_text(lsp::files_view(files@), path@) == file_text(
                lsp::files_view(files@).skip(i as int),
                path@,
            ),
        decreases files@.len() - i,
    {
        proof {
            let rest = lsp::files_view(files@).skip(i as int);
            assert(rest[0].path == files@[i as int].path@);
            assert(rest[0].text == files@[i as int].text@);
            assert(rest.drop_first() =~= lsp::files_view(files@).skip(i + 1));
        }
        if text::same(&files[i].path, path) {
            return text::nth_line(&files[i].text, line);
        }
        i = i + 1;
    }
    None
}

/// The text, trimmed, unless it is blank.
pub open spec fn trimmed_text(text: Seq<char>) -> Option<Seq<char>> {
    if text::trimmed(text).len() == 0 {
        None
    } else {
        Some(text::trimmed(text))
    }
}

fn trim_text(text: &str) -> (out: Option<String>)
    ensures
        text::maybe(out) == trimmed_text(text@),
{
    let out = text::trim(text);
    if out.as_str().is_empty() {
        None
    } else {
        Some(out)
    }
}

/// The place that a location or a location link names.
pub open spec fn location(value: JsonView, known: KnownView, server: Seq<char>) -> Option<
    LocationView,
> {
    let uri = json::text_in(json::first_of(value.get("uri"@), value.get("targetUri"@)));
    let range = json::first_of(
        json::first_of(value.get("range"@), value.get("targetSelectionRange"@)),
        value.get("targetRange"@),
    );
    let start = json::member(range, "start"@);
    let line = json::number_in(json::member(start, "line"@));
    let character = json::number_in(json::member(start, "character"@));
    match (uri, line, character) {
        (Some(uri), Some(line), Some(character)) => match uri::uri_path(uri, known.platform) {
            Some(path) => {
                let shown = match line_text(known, path, line as usize) {
                    Some(text) => text,
                    None => Seq::empty(),
                };
                Some(
                    LocationView {
                        path,
                        line: line as usize,
                        col: columns::char_col(shown, (character as usize) as int) as usize,
                        preview: trimmed_text(shown),
                        server,
                    },
                )
            },
            None => None,
        },
        _ => None,
    }
}

/// `location` as a function of the value alone.
pub open spec fn locating(known: KnownView, server: Seq<char>) -> spec_fn(JsonView) -> Option<
    LocationView,
> {
    |value: JsonView| location(value, known, server)
}

/// The places that a reply lists: those of an array, or the one of another value.
pub open spec fn locations(
    result: Option<JsonView>,
    known: KnownView,
    server: Seq<char>,
) -> Seq<LocationView> {
    match result {
        None => Seq::empty(),
        Some(JsonView::Null) => Seq::empty(),
        Some(JsonView::Array(items)) => json::picked(items, locating(known, server)),
        Some(value) => json::picked(seq![value], locating(known, server)),
    }
}

proof fn lemma_same_places(
    items: Seq<JsonView>,
    a: KnownView,
    b: KnownView,
    server: Seq<char>,
)
    requires
        a.platform == b.platform,
    ensures
        json::picked(items, locating(a, server)).len() == json::picked(
            items,
            locating(b, server),
        ).len(),
        forall|i: int|
            #![trigger json::picked(items, locating(a, server))[i]]
            0 <= i < json::picked(items, locating(a, server)).len() ==> json::picked(
                items,
                locating(a, server),
            )[i].path == json::picked(items, locating(b, server))[i].path && json::picked(
                items,
                locating(a, server),
            )[i].line == json::picked(items, locating(b, server))[i].line,
    decreases items.len(),
{
    if items.len() > 0 {
        lemma_same_places(items.drop_last(), a, b, server);
    }
}

/// Which files a reply names, and which of their lines, does not depend on which
/// files are at hand: these decide on columns and previews alone.
pub proof fn places_need_no_files(
    result: Option<JsonView>,
    a: KnownView,
    b: KnownView,
    server: Seq<char>,
)
    requires
        a.platform == b.platform,
    ensures
        locations(result, a, server).len() == locations(result, b, server).len(),
        forall|i: int|
            #![trigger locations(result, a, server)[i]]
            0 <= i < locations(result, a, server).len() ==> locations(result, a, server)[i].path
                == locations(result, b, server)[i].path && locations(result, a, server)[i].line
                == locations(result, b, server)[i].line,
{
    match result {
        None => {},
        Some(JsonView::Null) => {},
        Some(JsonView::Array(items)) => {
            lemma_same_places(items, a, b, server);
        },
        Some(value) => {
            lemma_same_places(seq![value], a, b, server);
        },
    }
}

fn parse_location(value: &Json, known: &KnownFiles<'_>, server: &str) -> (found: Option<LspLocation>)
    ensures
        found is Some <==> location(value@, known@, server@) is Some,
        found matches Some(l) ==> Some(l@) == location(value@, known@, server@),
{
    let uri = json::text_of(json::first_value(value.get("uri"), value.get("targetUri")));
    let range = json::first_value(
        json::first_value(value.get("range"), value.get("targetSelectionRange")),
        value.get("targetRange"),
    );
    let start = json::member_of(range, "start");
    let line = json::number_of(json::member_of(start, "line"));
    let character = json::number_of(json::member_of(start, "character"));
    match (uri, line, character) {
        (Some(uri), Some(line), Some(character)) => match uri::file_uri_to_path(
            &uri,
            known.platform,
        ) {
            Some(path) => {
                let line = line as usize;
                let shown = match line_text_for_path(&path, line, known) {
                    Some(text) => text,
                    None => String::new(),
                };
                let col = columns::utf16_col_to_char_col(&shown, character as usize);
                let preview = trim_text(&shown);
                Some(LspLocation { path, line, col, preview, server: server.to_owned() })
            },
            None => None,
        },
        _ => None,
    }
}

/// The places that a reply lists, with the columns and previews that the known
/// files give them.
pub fn parse_locations(result: Option<&Json>, known: &KnownFiles<'_>, server: &str) -> (out: Vec<
    LspLocation,
>)
    ensures
        lsp::locations_view(out@) == locations(
            json::maybe(result),
            known@,
            server@,
        ),
{
    broadcast use json::group_json_views;

    let mut out: Vec<LspLocation> = Vec::new();
    let ghost pick = locating(known@, server@);
    proof {
        assert(lsp::locations_view(out@) =~= Seq::<LocationView>::empty());
    }
    match result {
        None => {},
        Some(value) => match value {
            Json::Null => {},
            Json::Array(items) => {
                for i in 0..items.len()
                    invariant
                        pick == locating(known@, server@),
                        lsp::locations_view(out@) == json::picked(
                            json::items_view(items@).take(i as int),
                            pick,
                        ),
                {
                    let ghost all = json::items_view(items@);
                    let ghost before = out@;
                    assert(all.take(i + 1).drop_last() =~= all.take(i as int));
                    if let Some(found) = parse_location(&items[i], known, server) {
                        out.push(found);
                        assert(lsp::locations_view(out@) =~= lsp::locations_view(before).push(
                            found@,
                        ));
                    }
                }
                assert(json::items_view(items@).take(items@.len() as int) =~= json::items_view(
                    items@,
                ));
            },
            _ => {
                proof {
                    assert(seq![value@].drop_last() =~= Seq::<JsonView>::empty());
                    reveal_with_fuel(json::picked, 2);
                }
                if let Some(found) = parse_location(value, known, server) {
                    out.push(found);
                    assert(lsp::locations_view(out@) =~= Seq::<LocationView>::empty().push(found@));
                }
            },
        },
    }
    out
}

/// The completion that an item offers.
pub open spec fn completion(item: JsonView, server: Seq<char>) -> Option<CompletionView> {
    match json::text_in(item.get("label"@)) {
        None => None,
        Some(label) => {
            let documentation = match item.get("documentation"@) {
                Some(JsonView::Str(text)) => Some(text),
                Some(value) => json::text_in(value.get("value"@)),
                None => None,
            };
            Some(
                CompletionView {
                    label,
                    detail: json::first_of(json::text_in(item.get("detail"@)), documentation),
                    insert_text: json::first_of(
                        json::text_in(json::member(item.get("textEdit"@), "newText"@)),
                        json::text_in(item.get("insertText"@)),
                    ),
                    server,
                },
            )
        },
    }
}

pub open spec fn completing(server: Seq<char>) -> spec_fn(JsonView) -> Option<CompletionView> {
    |item: JsonView| completion(item, server)
}

/// The completions of a reply: an array of items, or an object that holds one.
pub open spec fn completions(result: Option<JsonView>, server: Seq<char>) -> Seq<CompletionView> {
    let items = match result {
        Some(JsonView::Array(items)) => items,
        Some(value) => match json::array_in(value.get("items"@)) {
            Some(items) => items,
            None => Seq::empty(),
        },
        None => Seq::empty(),
    };
    json::picked(items, completing(server))
}

fn first_text(a: Option<String>, b: Option<String>) -> (found: Option<String>)
    ensures
        text::maybe(found) == json::first_of(text::maybe(a), text::maybe(b)),
{
    match a {
        Some(t) => Some(t),
        None => b,
    }
}

fn parse_completion(item: &Json, server: &str) -> (found: Option<LspCompletion>)
    ensures
        found is Some <==> completion(item@, server@) is Some,
        found matches Some(c) ==> Some(c@) == completion(item@, server@),
{
    match json::text_of(item.get("label")) {
        None => None,
        Some(label) => {
            let documentation = match item.get("documentation") {
                Some(value) => match value {
                    Json::Str(text) => Some(text.clone()),
                    _ => json::text_of(value.get("value")),
                },
                None => None,
            };
            let detail = first_text(json::text_of(item.get("detail")), documentation);
            let insert_text = first_text(
                json::text_of(json::member_of(item.get("textEdit"), "newText")),
                json::text_of(item.get("insertText")),
            );
            Some(LspCompletion { label, detail, insert_text, server: server.to_owned() })
        },
    }
}

fn parse_completion_items(items: &Vec<Json>, server: &str) -> (out: Vec<LspCompletion>)
    ensures
        lsp::completions_view(out@) == json::picked(json::items_view(items@), completing(server@)),
{
    let mut out: Vec<LspCompletion> = Vec::new();
    proof {
        assert(lsp::completions_view(out@) =~= Seq::<CompletionView>::empty());
    }
    for i in 0..items.len()
        invariant
            lsp::completions_view(out@) == json::picked(
                json::items_view(items@).take(i as int),
                completing(server@),
            ),
    {
        let ghost all = json::items_view(items@);
        let ghost before = out@;
        assert(all.take(i + 1).drop_last() =~= all.take(i as int));
        if let Some(found) = parse_completion(&items[i], server) {
            out.push(found);
            assert(lsp::completions_view(out@) =~= lsp::completions_view(before).push(found@));
        }
    }
    assert(json::items_view(items@).take(items@.len() as int) =~= json::items_view(items@));
    out
}

/// The completions of a reply.
pub fn parse_completions(result: Option<&Json>, server: &str) -> (out: Vec<LspCompletion>)
    ensures
        lsp::completions_view(out@) == completions(json::maybe(result), server@),
{
    broadcast use json::group_json_views;

    let out: Vec<LspCompletion> = match result {
        None => Vec::new(),
        Some(value) => match value {
            Json::Array(items) => parse_completion_items(items, server),
            _ => match json::array_of(value.get("items")) {
                Some(items) => parse_completion_items(items, server),
                None => Vec::new(),
            },
        },
    };
    proof {
        if out@.len() == 0 {
            assert(lsp::completions_view(out@) =~= Seq::<CompletionView>::empty());
        }
    }
    out
}

/// The code of a diagnostic: a text, or a number as it is printed.
pub open spec fn code_text(value: Option<JsonView>) -> Option<Seq<char>> {
    match value {
        Some(JsonView::Str(text)) => Some(text),
        Some(JsonView::Number(NumberView::PosInt(n))) => Some(text::decimal(n as nat)),
        Some(JsonView::Number(NumberView::NegInt(n))) => Some(
            if n < 0 {
                seq!['-'] + text::decimal((-n) as nat)
            } else {
                text::decimal(n as nat)
            },
        ),
        Some(JsonView::Number(NumberView::Float(text))) => Some(text),
        _ => None,
    }
}

pub fn diagnostic_code(value: Option<&Json>) -> (code: Option<String>)
    ensures
        text::maybe(code) == code_text(json::maybe(value)),
{
    match value {
        None => None,
        Some(value) => match value {
            Json::Str(text) => Some(text.clone()),
            Json::Number(JsonNumber::PosInt(n)) => Some(text::decimal_of(*n)),
            Json::Number(JsonNumber::NegInt(n)) => {
                let n: i64 = *n;
                if n < 0 {
                    let mut out = String::new();
                    out.push('-');
                    let size: u64 = (-(n + 1)) as u64 + 1;
                    text::push_decimal(&mut out, size);
                    proof {
                        assert(out@ =~= seq!['-'] + text::decimal((-n) as nat));
                    }
                    Some(out)
                } else {
                    Some(text::decimal_of(n as u64))
                }
            },
            Json::Number(JsonNumber::Float(text)) => Some(text.clone()),
            _ => None,
        },
    }
}

/// A problem that a notification reports of the file `path`.
pub open spec fn diagnostic(
    value: JsonView,
    path: Seq<char>,
    known: KnownView,
    server: Seq<char>,
) -> Option<DiagnosticView> {
    let start = json::member(value.get("range"@), "start"@);
    let line = json::number_in(json::member(start, "line"@));
    let character = json::number_in(json::member(start, "character"@));
    let message = json::text_in(value.get("message"@));
    match (line, character, message) {
        (Some(line), Some(character), Some(message)) => if text::trimmed(message).len() == 0 {
            None
        } else {
            let shown = match line_text(known, path, line as usize) {
                Some(text) => text,
                None => Seq::empty(),
            };
            Some(
                DiagnosticView {
                    path,
                    line: line as usize,
                    col: columns::char_col(shown, (character as usize) as int) as usize,
                    severity: LspDiagnosticSeverity::of_number(
                        json::number_in(value.get("severity"@)),
                    ),
                    message: text::trimmed(message),
                    source: json::text_in(value.get("source"@)),
                    code: code_text(value.get("code"@)),
                    server,
                },
            )
        },
        _ => None,
    }
}

pub open spec fn diagnosing(path: Seq<char>, known: KnownView, server: Seq<char>) -> spec_fn(
    JsonView,
) -> Option<DiagnosticView> {
    |value: JsonView| diagnostic(value, path, known, server)
}

/// The path and the problems of a notification that publishes diagnostics.
pub open spec fn published(value: JsonView, platform: Platform) -> Option<
    (Seq<char>, Seq<JsonView>),
> {
    if json::text_in(value.get("method"@)) != Some("textDocument/publishDiagnostics"@) {
        None
    } else {
        let params = value.get("params"@);
        match (
            json::text_in(json::member(params, "uri"@)),
            json::array_in(json::member(params, "diagnostics"@)),
        ) {
            (Some(uri), Some(items)) => match uri::uri_path(uri, platform) {
                Some(path) => Some((path, items)),
                None => None,
            },
            _ => None,
        }
    }
}

/// The diagnostics that a message publishes, where it publishes any list.
pub open spec fn publish_diagnostics(
    value: JsonView,
    known: KnownView,
    server: Seq<char>,
) -> Option<Seq<DiagnosticView>> {
    match published(value, known.platform) {
        Some((path, items)) => Some(json::picked(items, diagnosing(path, known, server))),
        None => None,
    }
}

fn parse_diagnostic(value: &Json, path: &str, known: &KnownFiles<'_>, server: &str) -> (found:
    Option<LspDiagnostic>)
    ensures
        found is Some <==> diagnostic(value@, path@, known@, server@) is Some,
        found matches Some(d) ==> Some(d@) == diagnostic(
            value@,
            path@,
            known@,
            server@,
        ),
{
    let start = json::member_of(value.get("range"), "start");
    let line = json::number_of(json::member_of(start, "line"));
    let character = json::number_of(json::member_of(start, "character"));
    let message = json::text_of(value.get("message"));
    match (line, character, message) {
        (Some(line), Some(character), Some(message)) => {
            let message = text::trim(&message);
            if message.as_str().is_empty() {
                return None;
            }
            let line = line as usize;
            let shown = match line_text_for_path(path, line, known) {
                Some(text) => text,
                None => String::new(),
            };
            let col = columns::utf16_col_to_char_col(&shown, character as usize);
            Some(
                LspDiagnostic {
                    path: path.to_owned(),
                    line,
                    col,
                    severity: LspDiagnosticSeverity::from_lsp_value(value.get("severity")),
                    message,
                    source: json::text_of(value.get("source")),
                    code: diagnostic_code(value.get("code")),
                    server: server.to_owned(),
                },
            )
        },
        _ => None,
    }
}

/// The diagnostics that a message publishes; nothing for another message.
pub fn parse_publish_diagnostics(value: &Json, known: &KnownFiles<'_>, server: &str) -> (out: Option<
    Vec<LspDiagnostic>,
>)
    ensures
        out is Some <==> published(value@, known@.platform) is Some,
        out matches Some(items) ==> Some(lsp::diagnostics_view(items@)) == publish_diagnostics(
            value@,
            known@,
            server@,
        ),
{
    if !json::is_text(value.get("method"), "textDocument/publishDiagnostics") {
        return None;
    }
    let params = value.get("params");
    let uri = json::text_of(json::member_of(params, "uri"));
    let listed = json::array_of(json::member_of(params, "diagnostics"));
    match (uri, listed) {
        (Some(uri), Some(items)) => {
            let path = match uri::file_uri_to_path(&uri, known.platform) {
                Some(path) => path,
                None => {
                    return None;
                },
            };
            let mut out: Vec<LspDiagnostic> = Vec::new();
            let ghost pick = diagnosing(path@, known@, server@);
            proof {
                assert(lsp::diagnostics_view(out@) =~= Seq::<DiagnosticView>::empty());
            }
            for i in 0..items.len()
                invariant
                    pick == diagnosing(path@, known@, server@),
                    lsp::diagnostics_view(out@) == json::picked(
                        json::items_view(items@).take(i as int),
                        pick,
                    ),
            {
                let ghost all = json::items_view(items@);
                let ghost before = out@;
                assert(all.take(i + 1).drop_last() =~= all.take(i as int));
                if let Some(found) = parse_diagnostic(&items[i], &path, known, server) {
                    out.push(found);
                    assert(lsp::diagnostics_view(out@) =~= lsp::diagnostics_view(before).push(
                        found@,
                    ));
                }
            }
            assert(json::items_view(items@).take(items@.len() as int) =~= json::items_view(items@));
            Some(out)
        },
        _ => None,
    }
}

/// One edit of the file `path`.
pub open spec fn text_edit(value: JsonView, path: Seq<char>) -> Option<TextEditView> {
    let start = json::member(value.get("range"@), "start"@);
    let end = json::member(value.get("range"@), "end"@);
    let new_text = json::text_in(value.get("newText"@));
    let start_line = json::number_in(json::member(start, "line"@));
    let start_character = json::number_in(json::member(start, "character"@));
    let end_line = json::number_in(json::member(end, "line"@));
    let end_character = json::number_in(json::member(end, "character"@));
    match (new_text, start_line, start_character, end_line, end_character) {
        (
            Some(new_text),
            Some(start_line),
            Some(start_character),
            Some(end_line),
            Some(end_character),
        ) => Some(
            TextEditView {
                path,
                start_line: start_line as usize,
                start_utf16_col: start_character as usize,
                end_line: end_line as usize,
                end_utf16_col: end_character as usize,
                new_text,
            },
        ),
        _ => None,
    }
}

pub open spec fn editing(path: Seq<char>) -> spec_fn(JsonView) -> Option<TextEditView> {
    |value: JsonView| text_edit(value, path)
}

/// The edits that a list gives for the file with this URI.
pub open spec fn text_edits(uri: Seq<char>, raw_edits: JsonView, platform: Platform) -> Seq<
    TextEditView,
> {
    match (uri::uri_path(uri, platform), raw_edits.as_array()) {
        (Some(path), Some(items)) => json::picked(items, editing(path)),
        _ => Seq::empty(),
    }
}

fn parse_text_edit(value: &Json, path: &str) -> (found: Option<LspTextEdit>)
    ensures
        found is Some <==> text_edit(value@, path@) is Some,
        found matches Some(e) ==> Some(e@) == text_edit(value@, path@),
{
    let range = value.get("range");
    let start = json::member_of(range, "start");
    let end = json::member_of(range, "end");
    let new_text = json::text_of(value.get("newText"));
    let start_line = json::number_of(json::member_of(start, "line"));
    let start_character = json::number_of(json::member_of(start, "character"));
    let end_line = json::number_of(json::member_of(end, "line"));
    let end_character = json::number_of(json::member_of(end, "character"));
    match (new_text, start_line, start_character, end_line, end_character) {
        (
            Some(new_text),
            Some(start_line),
            Some(start_character),
            Some(end_line),
            Some(end_character),
        ) => Some(
            LspTextEdit {
                path: path.to_owned(),
                start_line: start_line as usize,
                start_utf16_col: start_character as usize,
                end_line: end_line as usize,
                end_utf16_col: end_character as usize,
                new_text,
            },
        ),
        _ => None,
    }
}

/// Appends the edits that a list gives for the file with this URI.
pub fn parse_text_edits_for_uri(
    uri: &str,
    raw_edits: &Json,
    platform: Platform,
    output: &mut Vec<LspTextEdit>,
)
    ensures
        lsp::edits_view(final(output)@) == lsp::edits_view(old(output)@) + text_edits(
            uri@,
            raw_edits@,
            platform,
        ),
{
    let ghost start = lsp::edits_view(output@);
    let path = match uri::file_uri_to_path(uri, platform) {
        Some(path) => path,
        None => {
            assert(start + Seq::<TextEditView>::empty() =~= start);
            return;
        },
    };
    let items = match raw_edits.as_array() {
        Some(items) => items,
        None => {
            assert(start + Seq::<TextEditView>::empty() =~= start);
            return;
        },
    };
    proof {
        assert(start + Seq::<TextEditView>::empty() =~= start);
    }
    for i in 0..items.len()
        invariant
            lsp::edits_view(output@) == start + json::picked(
                json::items_view(items@).take(i as int),
                editing(path@),
            ),
    {
        let ghost all = json::items_view(items@);
        let ghost before = output@;
        assert(all.take(i + 1).drop_last() =~= all.take(i as int));
        if let Some(found) = parse_text_edit(&items[i], &path) {
            output.push(found);
            assert(lsp::edits_view(output@) =~= lsp::edits_view(before).push(found@));
            assert(lsp::edits_view(output@) =~= start + json::picked(all.take(i + 1), editing(path@)));
        }
    }
    assert(json::items_view(items@).take(items@.len() as int) =~= json::items_view(items@));
}

/// The edits of a map from URIs to lists of edits.
pub open spec fn change_edits(changes: Seq<(Seq<char>, JsonView)>, platform: Platform) -> Seq<
    TextEditView,
>
    decreases changes.len(),
{
    if changes.len() == 0 {
        Seq::empty()
    } else {
        change_edits(changes.drop_last(), platform) + text_edits(
            changes.last().0,
            changes.last().1,
            platform,
        )
    }
}

/// The edits of one document change; nothing for a change of another kind.
pub open spec fn document_change_edits(change: JsonView, platform: Platform) -> Seq<TextEditView> {
    match (
        json::text_in(json::member(change.get("textDocument"@), "uri"@)),
        change.get("edits"@),
    ) {
        (Some(uri), Some(raw_edits)) => text_edits(uri, raw_edits, platform),
        _ => Seq::empty(),
    }
}

pub open spec fn document_changes_edits(changes: Seq<JsonView>, platform: Platform) -> Seq<
    TextEditView,
>
    decreases changes.len(),
{
    if changes.len() == 0 {
        Seq::empty()
    } else {
        document_changes_edits(changes.drop_last(), platform) + document_change_edits(
            changes.last(),
            platform,
        )
    }
}

/// All edits of a workspace edit: those of its changes, then those of its
/// document changes.
pub open spec fn workspace_edits(value: JsonView, platform: Platform) -> Seq<TextEditView> {
    let changes = match value.get("changes"@) {
        Some(JsonView::Object(entries)) => change_edits(entries, platform),
        _ => Seq::empty(),
    };
    let document_changes = match json::array_in(value.get("documentChanges"@)) {
        Some(items) => document_changes_edits(items, platform),
        None => Seq::empty(),
    };
    changes + document_changes
}

/// The workspace edit that a value stands for, where it edits anything.
pub open spec fn workspace_edit(
    value: Option<JsonView>,
    server: Seq<char>,
    platform: Platform,
) -> Option<WorkspaceEditView> {
    match value {
        Some(v) => if workspace_edits(v, platform).len() == 0 {
            None
        } else {
            Some(WorkspaceEditView { edits: workspace_edits(v, platform), server })
        },
        None => None,
    }
}

fn parse_changes(
    changes: &Vec<(String, Json)>,
    platform: Platform,
    output: &mut Vec<LspTextEdit>,
)
    ensures
        lsp::edits_view(final(output)@) == lsp::edits_view(old(output)@) + change_edits(
            json::entries_view(changes@),
            platform,
        ),
{
    let ghost start = lsp::edits_view(output@);
    proof {
        assert(start + Seq::<TextEditView>::empty() =~= start);
    }
    for i in 0..changes.len()
        invariant
            lsp::edits_view(output@) == start + change_edits(
                json::entries_view(changes@).take(i as int),
                platform,
            ),
    {
        let ghost all = json::entries_view(changes@);
        let ghost before = output@;
        assert(all.take(i + 1).drop_last() =~= all.take(i as int));
        parse_text_edits_for_uri(&changes[i].0, &changes[i].1, platform, output);
        assert(lsp::edits_view(output@) =~= start + change_edits(all.take(i + 1), platform));
    }
    assert(json::entries_view(changes@).take(changes@.len() as int) =~= json::entries_view(changes@));
}

fn parse_document_changes(changes: &Vec<Json>, platform: Platform, output: &mut Vec<LspTextEdit>)
    ensures
        lsp::edits_view(final(output)@) == lsp::edits_view(old(output)@) + document_changes_edits(
            json::items_view(changes@),
            platform,
        ),
{
    let ghost start = lsp::edits_view(output@);
    proof {
        assert(start + Seq::<TextEditView>::empty() =~= start);
    }
    for i in 0..changes.len()
        invariant
            lsp::edits_view(output@) == start + document_changes_edits(
                json::items_view(changes@).take(i as int),
                platform,
            ),
    {
        let ghost all = json::items_view(changes@);
        let ghost before = output@;
        assert(all.take(i + 1).drop_last() =~= all.take(i as int));
        let change = &changes[i];
        let uri = json::text_of(json::member_of(change.get("textDocument"), "uri"));
        match (uri, change.get("edits")) {
            (Some(uri), Some(raw_edits)) => {
                parse_text_edits_for_uri(&uri, raw_edits, platform, output);
            },
            _ => {},
        }
        assert(lsp::edits_view(output@) =~= start + document_changes_edits(all.take(i + 1), platform));
    }
    assert(json::items_view(changes@).take(changes@.len() as int) =~= json::items_view(changes@));
}

/// The workspace edit that a value stands for; nothing where it edits nothing.
pub fn parse_workspace_edit(result: Option<&Json>, server: &str, platform: Platform) -> (edit:
    Option<LspWorkspaceEdit>)
    ensures
        lsp::maybe_edit(edit) == workspace_edit(json::maybe(result), server@, platform),
{
    broadcast use json::group_json_views;

    match result {
        None => None,
        Some(value) => {
            let mut edits: Vec<LspTextEdit> = Vec::new();
            proof {
                assert(lsp::edits_view(edits@) =~= Seq::<TextEditView>::empty());
            }
            match value.get("changes") {
                Some(changes) => match changes {
                    Json::Object(entries) => {
                        parse_changes(entries, platform, &mut edits);
                    },
                    _ => {},
                },
                None => {},
            }
            let ghost first = lsp::edits_view(edits@);
            if let Some(changes) = json::array_of(value.get("documentChanges")) {
                parse_document_changes(changes, platform, &mut edits);
            }
            proof {
                assert(lsp::edits_view(edits@) =~= workspace_edits(value@, platform));
                assert(edits@.len() == lsp::edits_view(edits@).len());
            }
            if edits.len() == 0 {
                None
            } else {
                Some(LspWorkspaceEdit { edits, server: server.to_owned() })
            }
        },
    }
}

/// The workspace edit of a formatting reply for the file `path`.
pub open spec fn formatting_edit(
    result: Option<JsonView>,
    path: Seq<char>,
    server: Seq<char>,
    platform: Platform,
) -> Option<WorkspaceEditView> {
    match result {
        Some(value) => {
            let edits = text_edits(uri::file_uri(path), value, platform);
            if edits.len() == 0 {
                None
            } else {
                Some(WorkspaceEditView { edits, server })
            }
        },
        None => None,
    }
}

pub fn parse_formatting_edits(
    result: Option<&Json>,
    path: &str,
    server: &str,
    platform: Platform,
) -> (edit: Option<LspWorkspaceEdit>)
    ensures
        lsp::maybe_edit(edit) == formatting_edit(json::maybe(result), path@, server@, platform),
{
    match result {
        None => None,
        Some(value) => {
            let mut edits: Vec<LspTextEdit> = Vec::new();
            parse_text_edits_for_uri(
                &uri::path_to_file_uri(path),
                value,
                platform,
                &mut edits,
            );
            proof {
                assert(lsp::edits_view(edits@) =~= text_edits(
                    uri::file_uri(path@),
                    value@,
                    platform,
                ));
                assert(edits@.len() == lsp::edits_view(edits@).len());
            }
            if edits.len() == 0 {
                None
            } else {
                Some(LspWorkspaceEdit { edits, server: server.to_owned() })
            }
        },
    }
}

/// The arguments that a value lists under that name.
pub open spec fn arguments(value: JsonView) -> Seq<JsonView> {
    match json::array_in(value.get("arguments"@)) {
        Some(items) => items,
        None => Seq::empty(),
    }
}

/// The command of a code action. The action may name it itself, under its own
/// title, or hold it as an object, which may bring another title.
pub open spec fn command(action: JsonView, fallback_title: Seq<char>) -> Option<CommandView> {
    match action.get("command"@) {
        None => None,
        Some(JsonView::Str(name)) => match trimmed_text(name) {
            Some(command) => Some(
                CommandView { title: fallback_title, command, arguments: arguments(action) },
            ),
            None => None,
        },
        Some(raw) => match json::text_in(raw.get("command"@)) {
            Some(name) => match trimmed_text(name) {
                Some(command) => {
                    let own_title = match json::text_in(raw.get("title"@)) {
                        Some(title) => trimmed_text(title),
                        None => None,
                    };
                    let title = match own_title {
                        Some(title) => title,
                        None => fallback_title,
                    };
                    Some(CommandView { title, command, arguments: arguments(raw) })
                },
                None => None,
            },
            None => None,
        },
    }
}

fn copy_arguments(value: &Json) -> (out: Vec<Json>)
    ensures
        json::items_view(out@) == arguments(value@),
{
    match json::array_of(value.get("arguments")) {
        Some(items) => json::copy_all(items),
        None => {
            let out: Vec<Json> = Vec::new();
            assert(json::items_view(out@) =~= Seq::<JsonView>::empty());
            out
        },
    }
}

pub fn parse_lsp_command(action: &Json, fallback_title: &str) -> (found: Option<LspCommand>)
    ensures
        lsp::maybe_command(found) == command(action@, fallback_title@),
{
    match action.get("command") {
        None => None,
        Some(raw) => match raw {
            Json::Str(name) => match trim_text(name) {
                Some(command) => Some(
                    LspCommand {
                        title: fallback_title.to_owned(),
                        command,
                        arguments: copy_arguments(action),
                    },
                ),
                None => None,
            },
            _ => match json::text_of(raw.get("command")) {
                Some(name) => match trim_text(&name) {
                    Some(command) => {
                        let own_title = match json::text_of(raw.get("title")) {
                            Some(title) => trim_text(&title),
                            None => None,
                        };
                        let title = match own_title {
                            Some(title) => title,
                            None => fallback_title.to_owned(),
                        };
                        Some(LspCommand { title, command, arguments: copy_arguments(raw) })
                    },
                    None => None,
                },
                None => None,
            },
        },
    }
}

/// The action that an item of a reply offers.
pub open spec fn code_action(action: JsonView, server: Seq<char>, platform: Platform) -> Option<
    CodeActionView,
> {
    match json::text_in(action.get("title"@)) {
        None => None,
        Some(title) => match trimmed_text(title) {
            None => None,
            Some(title) => {
                let command = command(action, title);
                Some(
                    CodeActionView {
                        title,
                        kind: json::text_in(action.get("kind"@)),
                        is_preferred: action.get("isPreferred"@) == Some(JsonView::Bool(true)),
                        edit: workspace_edit(action.get("edit"@), server, platform),
                        command_title: match command {
                            Some(c) => Some(c.title),
                            None => None,
                        },
                        command,
                        server,
                    },
                )
            },
        },
    }
}

pub open spec fn acting(server: Seq<char>, platform: Platform) -> spec_fn(JsonView) -> Option<
    CodeActionView,
> {
    |action: JsonView| code_action(action, server, platform)
}

/// The actions of a reply.
pub open spec fn code_actions(
    result: Option<JsonView>,
    server: Seq<char>,
    platform: Platform,
) -> Seq<CodeActionView> {
    match json::array_in(result) {
        Some(items) => json::picked(items, acting(server, platform)),
        None => Seq::empty(),
    }
}

fn parse_code_action(action: &Json, server: &str, platform: Platform) -> (found: Option<
    LspCodeAction,
>)
    ensures
        found is Some <==> code_action(action@, server@, platform) is Some,
        found matches Some(a) ==> Some(a@) == code_action(action@, server@, platform),
{
    match json::text_of(action.get("title")) {
        None => None,
        Some(title) => match trim_text(&title) {
            None => None,
            Some(title) => {
                let edit = parse_workspace_edit(action.get("edit"), server, platform);
                let command = parse_lsp_command(action, &title);
                let command_title = match &command {
                    Some(c) => Some(c.title.clone()),
                    None => None,
                };
                let is_preferred = match action.get("isPreferred") {
                    Some(value) => match value.as_bool() {
                        Some(yes) => yes,
                        None => false,
                    },
                    None => false,
                };
                Some(
                    LspCodeAction {
                        title,
                        kind: json::text_of(action.get("kind")),
                        is_preferred,
                        edit,
                        command_title,
                        command,
                        server: server.to_owned(),
                    },
                )
            },
        },
    }
}

/// The actions that a reply offers.
pub fn parse_code_actions(result: Option<&Json>, server: &str, platform: Platform) -> (out: Vec<
    LspCodeAction,
>)
    ensures
        lsp::code_actions_view(out@) == code_actions(json::maybe(result), server@, platform),
{
    let mut out: Vec<LspCodeAction> = Vec::new();
    proof {
        assert(lsp::code_actions_view(out@) =~= Seq::<CodeActionView>::empty());
    }
    if let Some(items) = json::array_of(result) {
        for i in 0..items.len()
            invariant
                lsp::code_actions_view(out@) == json::picked(
                    json::items_view(items@).take(i as int),
                    acting(server@, platform),
                ),
        {
            let ghost all = json::items_view(items@);
            let ghost before = out@;
            assert(all.take(i + 1).drop_last() =~= all.take(i as int));
            if let Some(found) = parse_code_action(&items[i], server, platform) {
                out.push(found);
                assert(lsp::code_actions_view(out@) =~= lsp::code_actions_view(before).push(found@));
            }
        }
        assert(json::items_view(items@).take(items@.len() as int) =~= json::items_view(items@));
    }
    out
}

} // verus!
