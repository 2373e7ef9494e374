//! What the messages to a language server say.

use vstd::prelude::*;

use crate::json;
use crate::json::JsonView;
use crate::json::NumberView;
use crate::lsp::columns;
use crate::lsp::laws;
use crate::lsp::params;
use crate::lsp::uri;
use crate::lsp::CommandView;
use crate::lsp::DiagnosticView;
use crate::lsp::DocumentView;
use crate::text;

verus! {

/// Whether a value has a member under each of several keys.
pub open spec fn has_all(value: JsonView, members: Seq<(Seq<char>, JsonView)>) -> bool {
    forall|i: int|
        0 <= i < members.len() ==> laws::has(value, (#[trigger] members[i]).0, members[i].1)
}

/// Keys of which no two are the same.
pub open spec fn are_different(members: Seq<(Seq<char>, JsonView)>) -> bool {
    forall|i: int, j: int|
        0 <= i < j < members.len() ==> (#[trigger] members[i]).0 != (#[trigger] members[j]).0
}

proof fn lemma_has_all(members: Seq<(Seq<char>, JsonView)>)
    requires
        are_different(members),
    ensures
        has_all(JsonView::Object(members), members),
{
    let value = JsonView::Object(members);
    assert forall|i: int| 0 <= i < members.len() implies laws::has(
        value,
        (#[trigger] members[i]).0,
        members[i].1,
    ) by {
        assert(laws::is_first_under(value->Object_0, members[i].0, i)) by {
            assert forall|j: int| 0 <= j < i implies (#[trigger] value->Object_0[j]).0
                != members[i].0 by {
                assert(members[j].0 != members[i].0);
            }
        }
    }
}

proof fn lemma_has_two(a: (Seq<char>, JsonView), b: (Seq<char>, JsonView))
    requires
        a.0 != b.0,
    ensures
        laws::has(JsonView::Object(json::no_members().push(a).push(b)), a.0, a.1),
        laws::has(JsonView::Object(json::no_members().push(a).push(b)), b.0, b.1),
{
    let members = json::no_members().push(a).push(b);
    lemma_has_all(members);
    assert(members[0] == a && members[1] == b);
}

proof fn lemma_has_one(a: (Seq<char>, JsonView))
    ensures
        laws::has(JsonView::Object(json::no_members().push(a)), a.0, a.1),
{
    let members = json::no_members().push(a);
    lemma_has_all(members);
    assert(members[0] == a);
}

proof fn lemma_has_three(
    a: (Seq<char>, JsonView),
    b: (Seq<char>, JsonView),
    c: (Seq<char>, JsonView),
)
    requires
        a.0 != b.0,
        a.0 != c.0,
        b.0 != c.0,
    ensures
        laws::has(JsonView::Object(json::no_members().push(a).push(b).push(c)), a.0, a.1),
        laws::has(JsonView::Object(json::no_members().push(a).push(b).push(c)), b.0, b.1),
        laws::has(JsonView::Object(json::no_members().push(a).push(b).push(c)), c.0, c.1),
{
    let members = json::no_members().push(a).push(b).push(c);
    lemma_has_all(members);
    assert(members[0] == a && members[1] == b && members[2] == c);
}

proof fn lemma_has_four(
    a: (Seq<char>, JsonView),
    b: (Seq<char>, JsonView),
    c: (Seq<char>, JsonView),
    d: (Seq<char>, JsonView),
)
    requires
        a.0 != b.0,
        a.0 != c.0,
        b.0 != c.0,
        a.0 != d.0,
        b.0 != d.0,
        c.0 != d.0,
    ensures
        ({
            let value = JsonView::Object(json::no_members().push(a).push(b).push(c).push(d));
            &&& laws::has(value, a.0, a.1)
            &&& laws::has(value, b.0, b.1)
            &&& laws::has(value, c.0, c.1)
            &&& laws::has(value, d.0, d.1)
        }),
{
    let members = json::no_members().push(a).push(b).push(c).push(d);
    lemma_has_all(members);
    assert(members[0] == a && members[1] == b && members[2] == c && members[3] == d);
}

proof fn lemma_keys()
    ensures
        "line"@ != "character"@,
        "textDocument"@ != "position"@,
        "textDocument"@ != "context"@,
        "position"@ != "context"@,
        "textDocument"@ != "newName"@,
        "position"@ != "newName"@,
        "textDocument"@ != "options"@,
        "start"@ != "end"@,
        "range"@ != "textDocument"@,
        "range"@ != "context"@,
        "range"@ != "severity"@,
        "range"@ != "message"@,
        "severity"@ != "message"@,
        "diagnostics"@ != "only"@,
        "jsonrpc"@ != "method"@,
        "jsonrpc"@ != "params"@,
        "method"@ != "params"@,
        "jsonrpc"@ != "id"@,
        "id"@ != "method"@,
        "id"@ != "params"@,
        "command"@ != "arguments"@,
        "uri"@ != "languageId"@,
        "uri"@ != "version"@,
        "uri"@ != "text"@,
        "languageId"@ != "version"@,
        "languageId"@ != "text"@,
        "version"@ != "text"@,
        "jsonrpc"@ != "result"@,
        "id"@ != "result"@,
        "jsonrpc"@ != "error"@,
        "id"@ != "error"@,
        "range"@ != "source"@,
        "severity"@ != "source"@,
        "message"@ != "source"@,
        "range"@ != "code"@,
        "severity"@ != "code"@,
        "message"@ != "code"@,
        "source"@ != "code"@,
{
    reveal_strlit("source");
    reveal_strlit("code");
    assert("source"@.len() == 6 && "source"@[0] == 's');
    assert("code"@.len() == 4 && "code"@[0] == 'c');
    reveal_strlit("line");
    reveal_strlit("character");
    reveal_strlit("textDocument");
    reveal_strlit("position");
    reveal_strlit("context");
    reveal_strlit("newName");
    reveal_strlit("options");
    reveal_strlit("start");
    reveal_strlit("end");
    reveal_strlit("range");
    reveal_strlit("severity");
    reveal_strlit("message");
    reveal_strlit("diagnostics");
    reveal_strlit("only");
    reveal_strlit("jsonrpc");
    reveal_strlit("method");
    reveal_strlit("params");
    reveal_strlit("id");
    reveal_strlit("command");
    reveal_strlit("arguments");
    reveal_strlit("uri");
    reveal_strlit("languageId");
    reveal_strlit("version");
    reveal_strlit("text");
    reveal_strlit("result");
    reveal_strlit("error");
    assert("line"@.len() == 4 && "line"@[0] == 'l');
    assert("character"@.len() == 9 && "character"@[0] == 'c');
    assert("textDocument"@.len() == 12 && "textDocument"@[0] == 't');
    assert("position"@.len() == 8 && "position"@[0] == 'p');
    assert("context"@.len() == 7 && "context"@[0] == 'c');
    assert("newName"@.len() == 7 && "newName"@[0] == 'n');
    assert("options"@.len() == 7 && "options"@[0] == 'o');
    assert("start"@.len() == 5 && "start"@[0] == 's');
    assert("end"@.len() == 3 && "end"@[0] == 'e');
    assert("range"@.len() == 5 && "range"@[0] == 'r');
    assert("severity"@.len() == 8 && "severity"@[0] == 's');
    assert("message"@.len() == 7 && "message"@[0] == 'm');
    assert("diagnostics"@.len() == 11 && "diagnostics"@[0] == 'd');
    assert("only"@.len() == 4 && "only"@[0] == 'o');
    assert("jsonrpc"@.len() == 7 && "jsonrpc"@[0] == 'j');
    assert("method"@.len() == 6 && "method"@[0] == 'm');
    assert("params"@.len() == 6 && "params"@[0] == 'p');
    assert("id"@.len() == 2 && "id"@[0] == 'i');
    assert("command"@.len() == 7 && "command"@[0] == 'c');
    assert("arguments"@.len() == 9 && "arguments"@[0] == 'a');
    assert("uri"@.len() == 3 && "uri"@[0] == 'u');
    assert("languageId"@.len() == 10 && "languageId"@[0] == 'l');
    assert("version"@.len() == 7 && "version"@[0] == 'v');
    assert("text"@.len() == 4 && "text"@[0] == 't');
    assert("result"@.len() == 6 && "result"@[0] == 'r');
    assert("error"@.len() == 5 && "error"@[0] == 'e');
    assert("result"@[2] == 's');
}

/// Whether a value is the point of a document at a character of a line, its column
/// counted as the protocol does.
pub open spec fn points_at(value: JsonView, document: Seq<char>, line: usize, col: usize) -> bool {
    let shown = match text::line_at(document, line as nat) {
        Some(shown) => shown,
        None => Seq::empty(),
    };
    &&& laws::has(value, "line"@, JsonView::Number(NumberView::PosInt(line as u64)))
    &&& laws::has(
        value,
        "character"@,
        JsonView::Number(NumberView::PosInt(columns::utf16_col(shown, col as nat) as u64)),
    )
}

/// Whether the parameters of a request name the document and the place in it.
pub open spec fn names_the_place(value: JsonView, position: DocumentView) -> bool {
    &&& exists|document: JsonView|
        laws::has(value, "textDocument"@, document) && #[trigger] laws::has(
            document,
            "uri"@,
            JsonView::Str(uri::file_uri(position.path)),
        )
    &&& exists|point: JsonView|
        laws::has(value, "position"@, point) && #[trigger] points_at(
            point,
            position.text,
            position.line,
            position.col,
        )
}

proof fn lemma_point(document: Seq<char>, line: usize, col: usize, character: nat)
    requires
        character == columns::utf16_col(
            match text::line_at(document, line as nat) {
                Some(shown) => shown,
                None => Seq::empty(),
            },
            col as nat,
        ),
    ensures
        points_at(params::point(line, character), document, line, col),
{
    lemma_keys();
    lemma_has_two(
        ("line"@, JsonView::Number(NumberView::PosInt(line as u64))),
        ("character"@, JsonView::Number(NumberView::PosInt(character as u64))),
    );
}

proof fn lemma_document(path: Seq<char>)
    ensures
        laws::has(
            params::text_document(path).1,
            "uri"@,
            JsonView::Str(uri::file_uri(path)),
        ),
{
    lemma_has_one(("uri"@, JsonView::Str(uri::file_uri(path))));
}

/// A request about a place names the document by its URI and the place by its line
/// and its column. One for references asks for the declaration too, one to rename
/// carries the new name, and one for completions says that it was asked for.
pub proof fn requests_name_the_place(position: DocumentView, new_name: Seq<char>)
    ensures
        names_the_place(params::object(params::position_members(position)), position),
        names_the_place(params::references_value(position), position),
        names_the_place(params::completion_value(position), position),
        names_the_place(params::rename_value(position, new_name), position),
        laws::has(
            params::rename_value(position, new_name),
            "newName"@,
            JsonView::Str(new_name),
        ),
        exists|context: JsonView|
            laws::has(params::references_value(position), "context"@, context)
                && #[trigger] laws::has(context, "includeDeclaration"@, JsonView::Bool(true)),
        exists|context: JsonView|
            laws::has(params::completion_value(position), "context"@, context)
                && #[trigger] laws::has(
                context,
                "triggerKind"@,
                JsonView::Number(NumberView::PosInt(1)),
            ),
{
    lemma_keys();
    let line = params::position_line(position.text, position.line);
    let point = params::point(position.line, columns::utf16_col(line, position.col as nat));
    lemma_point(
        position.text,
        position.line,
        position.col,
        columns::utf16_col(line, position.col as nat),
    );
    lemma_document(position.path);
    let document = params::text_document(position.path);
    let at = ("position"@, point);
    lemma_has_two(document, at);
    let declared = ("includeDeclaration"@, JsonView::Bool(true));
    let context = JsonView::Object(json::no_members().push(declared));
    lemma_has_one(declared);
    lemma_has_three(document, at, ("context"@, context));
    let asked = ("triggerKind"@, JsonView::Number(NumberView::PosInt(1)));
    let trigger = JsonView::Object(json::no_members().push(asked));
    lemma_has_one(asked);
    lemma_has_three(document, at, ("context"@, trigger));
    lemma_has_three(document, at, ("newName"@, JsonView::Str(new_name)));
    assert(laws::has(context, "includeDeclaration"@, JsonView::Bool(true)));
    assert(laws::has(trigger, "triggerKind"@, JsonView::Number(NumberView::PosInt(1))));
}

/// A request to format names the document.
pub proof fn requests_to_format_name_the_document(path: Seq<char>)
    ensures
        exists|document: JsonView|
            laws::has(params::formatting_value(path), "textDocument"@, document)
                && #[trigger] laws::has(document, "uri"@, JsonView::Str(uri::file_uri(path))),
{
    lemma_keys();
    lemma_document(path);
    let options = json::no_members()
        .push(("tabSize"@, json::number_view(4)))
        .push(("insertSpaces"@, JsonView::Bool(true)))
        .push(("trimTrailingWhitespace"@, JsonView::Bool(true)))
        .push(("insertFinalNewline"@, JsonView::Bool(true)))
        .push(("trimFinalNewlines"@, JsonView::Bool(true)));
    lemma_has_two(params::text_document(path), ("options"@, JsonView::Object(options)));
}

/// A request to execute a command names it, with its arguments.
pub proof fn requests_to_execute_carry_the_command(command: CommandView)
    ensures
        laws::has(params::command_value(command), "command"@, JsonView::Str(command.command)),
        laws::has(
            params::command_value(command),
            "arguments"@,
            JsonView::Array(command.arguments),
        ),
{
    lemma_keys();
    lemma_has_two(
        ("command"@, JsonView::Str(command.command)),
        ("arguments"@, JsonView::Array(command.arguments)),
    );
}

/// A request carries its number, its method and its parameters; a notification, the
/// method and the parameters.
pub proof fn messages_carry_method_and_parameters(
    id: u64,
    method: Seq<char>,
    parameters: JsonView,
)
    ensures
        ({
            let request = params::request(id, method, parameters);
            let notification = params::notification(method, parameters);
            &&& laws::has(request, "jsonrpc"@, JsonView::Str("2.0"@))
            &&& laws::has(request, "id"@, JsonView::Number(NumberView::PosInt(id)))
            &&& laws::has(request, "method"@, JsonView::Str(method))
            &&& laws::has(request, "params"@, parameters)
            &&& laws::has(notification, "jsonrpc"@, JsonView::Str("2.0"@))
            &&& laws::has(notification, "method"@, JsonView::Str(method))
            &&& laws::has(notification, "params"@, parameters)
            &&& laws::lacks(notification, "id"@)
        }),
{
    lemma_keys();
    let version = ("jsonrpc"@, JsonView::Str("2.0"@));
    let number = ("id"@, JsonView::Number(NumberView::PosInt(id)));
    let called = ("method"@, JsonView::Str(method));
    let given = ("params"@, parameters);
    lemma_has_four(version, number, called, given);
    lemma_has_three(version, called, given);
    let entries = params::notification(method, parameters)->Object_0;
    assert forall|i: int| 0 <= i < entries.len() implies (#[trigger] entries[i]).0
        != "id"@ by {}
}

/// The server is handed the document as it stands, under its URI and its language.
pub proof fn opened_documents_are_handed_over_whole(
    path: Seq<char>,
    language_id: Seq<char>,
    contents: Seq<char>,
)
    ensures
        exists|parameters: JsonView, document: JsonView|
            #![trigger laws::has(parameters, "textDocument"@, document)]
            {
                &&& laws::has(
                    params::did_open(path, language_id, contents),
                    "params"@,
                    parameters,
                )
                &&& laws::has(parameters, "textDocument"@, document)
                &&& laws::has(document, "uri"@, JsonView::Str(uri::file_uri(path)))
                &&& laws::has(document, "languageId"@, JsonView::Str(language_id))
                &&& laws::has(document, "text"@, JsonView::Str(contents))
                &&& laws::has_number(document, "version"@, 1)
            },
        laws::has(
            params::did_open(path, language_id, contents),
            "method"@,
            JsonView::Str("textDocument/didOpen"@),
        ),
{
    lemma_keys();
    let document = JsonView::Object(
        json::no_members().push(("uri"@, json::str_view(uri::file_uri(path)))).push(
            ("languageId"@, json::str_view(language_id)),
        ).push(("version"@, json::number_view(1))).push(("text"@, json::str_view(contents))),
    );
    lemma_has_four(
        ("uri"@, json::str_view(uri::file_uri(path))),
        ("languageId"@, json::str_view(language_id)),
        ("version"@, json::number_view(1)),
        ("text"@, json::str_view(contents)),
    );
    let parameters = JsonView::Object(json::no_members().push(("textDocument"@, document)));
    lemma_has_one(("textDocument"@, document));
    messages_carry_method_and_parameters(0, "textDocument/didOpen"@, parameters);
    assert(laws::has(parameters, "textDocument"@, document));
}

/// An answer to the server goes under the number that the server gave: whether its
/// edit was applied, or that what it asked for is not supported.
pub proof fn answers_go_under_the_number_of_the_question(id: JsonView, applied: bool)
    ensures
        laws::has(params::apply_edit_answer(id, applied), "id"@, id),
        exists|result: JsonView|
            laws::has(params::apply_edit_answer(id, applied), "result"@, result)
                && #[trigger] laws::has(result, "applied"@, JsonView::Bool(applied)),
        laws::has(params::unsupported_answer(id), "id"@, id),
        !laws::lacks(params::unsupported_answer(id), "error"@),
        laws::lacks(params::unsupported_answer(id), "result"@),
{
    lemma_keys();
    reveal_strlit("result");
    reveal_strlit("error");
    let version = ("jsonrpc"@, JsonView::Str("2.0"@));
    let answer = params::apply_edit_answer(id, applied);
    let result = answer->Object_0[2].1;
    lemma_has_three(version, ("id"@, id), ("result"@, result));
    assert(answer == JsonView::Object(
        json::no_members().push(version).push(("id"@, id)).push(("result"@, result)),
    ));
    let entries = result->Object_0;
    assert(entries[0] == ("applied"@, JsonView::Bool(applied)));
    assert(laws::is_first_under(entries, "applied"@, 0));
    assert(laws::has(result, "applied"@, JsonView::Bool(applied)));
    let refusal = params::unsupported_answer(id);
    let members = refusal->Object_0;
    lemma_has_three(version, ("id"@, id), ("error"@, members[2].1));
    assert(refusal == JsonView::Object(
        json::no_members().push(version).push(("id"@, id)).push(("error"@, members[2].1)),
    ));
    assert(members[2].0 == "error"@);
    assert("error"@[0] == 'e' && "result"@[0] == 'r');
    assert forall|i: int| 0 <= i < members.len() implies (#[trigger] members[i]).0
        != "result"@ by {}
}

/// Whether a value tells a problem: from its first character to behind it, or none at
/// the end of the line, with its severity, message, source and code.
pub open spec fn tells_the_problem(
    value: JsonView,
    problem: DiagnosticView,
    document: Seq<char>,
) -> bool {
    let line = text::line_at(document, problem.line as nat)->0;
    &&& exists|range: JsonView, start: JsonView, end: JsonView|
        {
            &&& #[trigger] laws::has(value, "range"@, range)
            &&& #[trigger] laws::has(range, "start"@, start)
            &&& #[trigger] laws::has(range, "end"@, end)
            &&& points_at(start, document, problem.line, problem.col)
            &&& points_at(
                end,
                document,
                problem.line,
                if problem.col < line.len() {
                    (problem.col + 1) as usize
                } else {
                    problem.col
                },
            )
        }
    &&& laws::has(value, "message"@, JsonView::Str(problem.message))
    &&& problem.severity is Error ==> laws::has(value, "severity"@, JsonView::Number(NumberView::PosInt(1)))
    &&& problem.severity is Warning ==> laws::has(value, "severity"@, JsonView::Number(NumberView::PosInt(2)))
    &&& problem.severity is Information ==> laws::has(
        value,
        "severity"@,
        JsonView::Number(NumberView::PosInt(3)),
    )
    &&& problem.severity is Hint ==> laws::has(value, "severity"@, JsonView::Number(NumberView::PosInt(4)))
    &&& problem.source is Some ==> laws::has(value, "source"@, JsonView::Str(problem.source->0))
    &&& problem.code is Some ==> laws::has(value, "code"@, JsonView::Str(problem.code->0))
}

proof fn lemma_has_pushed(
    members: Seq<(Seq<char>, JsonView)>,
    more: (Seq<char>, JsonView),
    key: Seq<char>,
    inner: JsonView,
)
    requires
        laws::has(JsonView::Object(members), key, inner),
    ensures
        laws::has(JsonView::Object(members.push(more)), key, inner),
{
    let value = JsonView::Object(members);
    let longer = JsonView::Object(members.push(more));
    let i = choose|i: int|
        #[trigger] laws::is_first_under(value->Object_0, key, i) && value->Object_0[i].1 == inner;
    assert(laws::is_first_under(longer->Object_0, key, i)) by {
        assert forall|j: int| 0 <= j < i implies (#[trigger] longer->Object_0[j]).0 != key by {
            assert(value->Object_0[j].0 != key);
        }
    }
}

proof fn lemma_has_last(members: Seq<(Seq<char>, JsonView)>, more: (Seq<char>, JsonView))
    requires
        laws::lacks(JsonView::Object(members), more.0),
    ensures
        laws::has(JsonView::Object(members.push(more)), more.0, more.1),
{
    let value = JsonView::Object(members);
    let longer = JsonView::Object(members.push(more));
    assert(laws::is_first_under(longer->Object_0, more.0, members.len() as int)) by {
        assert forall|j: int| 0 <= j < members.len() implies (#[trigger] longer->Object_0[j]).0
            != more.0 by {
            assert(value->Object_0[j].0 != more.0);
        }
    }
}

/// A problem of the document goes along with a question for actions as it is; one of
/// another file, or on a line that the document does not have, does not.
pub proof fn problems_go_along_as_they_are(
    problem: DiagnosticView,
    position: DocumentView,
    aliases: Seq<Seq<char>>,
)
    requires
        problem.col < usize::MAX,
    ensures
        ({
            let value = params::diagnostic_value(problem, position, aliases);
            let own = params::names_document(
                problem.path,
                position.path,
                aliases,
                position.platform,
            );
            &&& value is Some <==> own && text::line_at(position.text, problem.line as nat) is Some
            &&& value is Some ==> tells_the_problem(value->0, problem, position.text)
        }),
{
    lemma_keys();
    let found = params::diagnostic_value(problem, position, aliases);
    if found is Some {
        let line = text::line_at(position.text, problem.line as nat)->0;
        let (from, to) = params::marked_columns(line, problem.col);
        let start = params::point(problem.line, columns::utf16_col(line, from));
        let end = params::point(problem.line, columns::utf16_col(line, to));
        lemma_point(
            position.text,
            problem.line,
            problem.col,
            columns::utf16_col(line, problem.col as nat),
        );
        assert(columns::utf16_col(line, from) == columns::utf16_col(line, problem.col as nat));
        let past = if problem.col < line.len() {
            (problem.col + 1) as usize
        } else {
            problem.col
        };
        assert(columns::utf16_col(line, to) == columns::utf16_col(line, past as nat));
        lemma_point(position.text, problem.line, past, columns::utf16_col(line, past as nat));
        lemma_has_two(("start"@, start), ("end"@, end));
        let range = JsonView::Object(json::no_members().push(("start"@, start)).push(("end"@, end)));
        let severity = ("severity"@, json::number_view(problem.severity.number()));
        let message = ("message"@, JsonView::Str(problem.message));
        let base = json::no_members().push(("range"@, range)).push(severity).push(message);
        lemma_has_three(("range"@, range), severity, message);
        let with_source = match problem.source {
            Some(source) => base.push(("source"@, json::str_view(source))),
            None => base,
        };
        let with_code = match problem.code {
            Some(code) => with_source.push(("code"@, json::str_view(code))),
            None => with_source,
        };
        assert(found->0 == JsonView::Object(with_code));
        if let Some(source) = problem.source {
            let more = ("source"@, json::str_view(source));
            lemma_has_pushed(base, more, "range"@, range);
            lemma_has_pushed(base, more, "severity"@, severity.1);
            lemma_has_pushed(base, more, "message"@, message.1);
            assert(laws::lacks(JsonView::Object(base), "source"@));
            lemma_has_last(base, more);
        }
        if let Some(code) = problem.code {
            let more = ("code"@, json::str_view(code));
            lemma_has_pushed(with_source, more, "range"@, range);
            lemma_has_pushed(with_source, more, "severity"@, severity.1);
            lemma_has_pushed(with_source, more, "message"@, message.1);
            if let Some(source) = problem.source {
                lemma_has_pushed(with_source, more, "source"@, json::str_view(source));
            }
            assert(laws::lacks(JsonView::Object(with_source), "code"@));
            lemma_has_last(with_source, more);
        }
        assert(laws::has(found->0, "range"@, range));
        assert(laws::has(range, "start"@, start) && laws::has(range, "end"@, end));
    }
}

/// A question for actions is about the place itself, and carries the problems of the
/// document.
pub proof fn questions_for_actions_name_the_place(
    position: DocumentView,
    problems: Seq<DiagnosticView>,
    aliases: Seq<Seq<char>>,
)
    ensures
        ({
            let value = params::code_action_value(position, problems, aliases);
            &&& exists|document: JsonView|
                laws::has(value, "textDocument"@, document) && #[trigger] laws::has(
                    document,
                    "uri"@,
                    JsonView::Str(uri::file_uri(position.path)),
                )
            &&& exists|range: JsonView, point: JsonView|
                {
                    &&& laws::has(value, "range"@, range)
                    &&& #[trigger] laws::has(range, "start"@, point)
                    &&& laws::has(range, "end"@, point)
                    &&& points_at(point, position.text, position.line, position.col)
                }
            &&& exists|context: JsonView|
                laws::has(value, "context"@, context) && #[trigger] laws::has(
                    context,
                    "diagnostics"@,
                    JsonView::Array(params::diagnostic_values(problems, position, aliases)),
                )
        }),
{
    lemma_keys();
    lemma_document(position.path);
    let line = params::position_line(position.text, position.line);
    let at = params::point(position.line, columns::utf16_col(line, position.col as nat));
    lemma_point(
        position.text,
        position.line,
        position.col,
        columns::utf16_col(line, position.col as nat),
    );
    lemma_has_two(("start"@, at), ("end"@, at));
    let range = JsonView::Object(json::no_members().push(("start"@, at)).push(("end"@, at)));
    let listed = (
        "diagnostics"@,
        JsonView::Array(params::diagnostic_values(problems, position, aliases)),
    );
    let value = params::code_action_value(position, problems, aliases);
    let context = value->Object_0[2].1;
    let only = context->Object_0[1];
    lemma_has_two(listed, only);
    assert(context == JsonView::Object(json::no_members().push(listed).push(only)));
    lemma_has_three(
        params::text_document(position.path),
        ("range"@, range),
        ("context"@, context),
    );
    assert(laws::has(range, "start"@, at));
    assert(laws::has(context, "diagnostics"@, listed.1));
}

/// Problems go along one by one, in their order.
pub proof fn problems_go_along_in_their_order(
    a: Seq<DiagnosticView>,
    b: Seq<DiagnosticView>,
    position: DocumentView,
    aliases: Seq<Seq<char>>,
)
    ensures
        params::diagnostic_values(a + b, position, aliases) == params::diagnostic_values(
            a,
            position,
            aliases,
        ) + params::diagnostic_values(b, position, aliases),
        b.len() == 1 ==> params::diagnostic_values(b, position, aliases) == (
        match params::diagnostic_value(b[0], position, aliases) {
            Some(value) => seq![value],
            None => Seq::empty(),
        }),
    decreases b.len(),
{
    let all = params::diagnostic_values(a + b, position, aliases);
    let parts = params::diagnostic_values(a, position, aliases) + params::diagnostic_values(
        b,
        position,
        aliases,
    );
    if b.len() > 0 {
        problems_go_along_in_their_order(a, b.drop_last(), position, aliases);
        assert((a + b).drop_last() =~= a + b.drop_last());
        assert(all =~= parts);
        if b.len() == 1 {
            assert(b.drop_last() =~= Seq::<DiagnosticView>::empty());
            assert(params::diagnostic_values(b, position, aliases) =~= (
            match params::diagnostic_value(b[0], position, aliases) {
                Some(value) => seq![value],
                None => Seq::empty(),
            }));
        }
    } else {
        assert(a + b =~= a);
        assert(all =~= parts);
    }
}

/// The server is greeted with the directory of the workspace, with who asks, and with
/// whether edits of the workspace are taken from it.
pub proof fn servers_are_greeted_with_what_they_need_to_know(
    root: Seq<char>,
    takes_edits: bool,
    version: Seq<char>,
)
    ensures
        laws::has_number(params::initialize(root, takes_edits, version), "id"@, 1),
        laws::has_text(
            params::initialize(root, takes_edits, version),
            "method"@,
            "initialize"@,
        ),
        exists|given: JsonView, client: JsonView, able: JsonView|
            #![trigger laws::has(given, "clientInfo"@, client), laws::has(
                given,
                "capabilities"@,
                able,
            )]
            {
                &&& laws::has(params::initialize(root, takes_edits, version), "params"@, given)
                &&& laws::has(given, "processId"@, JsonView::Null)
                &&& laws::has_text(given, "rootUri"@, uri::file_uri(root))
                &&& laws::has(given, "clientInfo"@, client)
                &&& laws::has_text(client, "name"@, seq!['t', 's', 'c', 'o', 'd', 'e'])
                &&& laws::has_text(client, "version"@, version)
                &&& laws::has(given, "capabilities"@, able)
                &&& able is Object
                &&& !takes_edits ==> able->Object_0.len() == 0
                &&& takes_edits ==> exists|workspace: JsonView|
                    #[trigger] laws::has(able, "workspace"@, workspace) && laws::has(
                        workspace,
                        "applyEdit"@,
                        JsonView::Bool(true),
                    )
            },
{
    lemma_keys();
    reveal_strlit("processId");
    reveal_strlit("rootUri");
    reveal_strlit("capabilities");
    reveal_strlit("clientInfo");
    reveal_strlit("name");
    reveal_strlit("version");
    reveal_strlit("tscode");
    assert("tscode"@ =~= seq!['t', 's', 'c', 'o', 'd', 'e']);
    assert("processId"@.len() == 9 && "rootUri"@.len() == 7 && "capabilities"@.len() == 12
        && "clientInfo"@.len() == 10 && "name"@.len() == 4 && "version"@.len() == 7);
    let message = params::initialize(root, takes_edits, version);
    let given = message->Object_0[3].1;
    let able = given->Object_0[2].1;
    let client = given->Object_0[3].1;
    messages_carry_method_and_parameters(1, "initialize"@, given);
    lemma_has_four(
        ("processId"@, JsonView::Null),
        ("rootUri"@, JsonView::Str(uri::file_uri(root))),
        ("capabilities"@, able),
        ("clientInfo"@, client),
    );
    lemma_has_two(("name"@, JsonView::Str("tscode"@)), ("version"@, JsonView::Str(version)));
    if takes_edits {
        let workspace = able->Object_0[0].1;
        lemma_has_one(("workspace"@, workspace));
        lemma_has_one(("applyEdit"@, JsonView::Bool(true)));
        assert(laws::has(able, "workspace"@, workspace));
    }
    assert(laws::has(given, "clientInfo"@, client));
    assert(laws::has(given, "capabilities"@, able));
}

/// A server that asks for what is not supported is refused with the number for a method
/// that is not found; one whose edit holds nothing is told why it is not applied.
pub proof fn refusals_say_what_is_wrong(id: JsonView)
    ensures
        exists|error: JsonView|
            #[trigger] laws::has(params::unsupported_answer(id), "error"@, error) && laws::has(
                error,
                "code"@,
                JsonView::Number(NumberView::NegInt(-32601i64 as i64)),
            ) && laws::has_text(
                error,
                "message"@,
                "method not supported by tscode one-shot LSP client"@,
            ),
        exists|result: JsonView|
            #[trigger] laws::has(params::apply_edit_answer(id, false), "result"@, result)
                && laws::has_text(
                result,
                "failureReason"@,
                "tscode did not receive a workspace edit"@,
            ),
        exists|result: JsonView|
            #[trigger] laws::has(params::apply_edit_answer(id, true), "result"@, result)
                && laws::lacks(result, "failureReason"@),
{
    lemma_keys();
    reveal_strlit("result");
    reveal_strlit("error");
    reveal_strlit("code");
    reveal_strlit("message");
    reveal_strlit("applied");
    reveal_strlit("failureReason");
    assert("code"@.len() == 4 && "message"@.len() == 7 && "applied"@.len() == 7
        && "failureReason"@.len() == 13 && "result"@.len() == 6 && "error"@.len() == 5);
    let version = ("jsonrpc"@, JsonView::Str("2.0"@));
    let refusal = params::unsupported_answer(id);
    let error = refusal->Object_0[2].1;
    lemma_has_three(version, ("id"@, id), ("error"@, error));
    lemma_has_two(
        ("code"@, JsonView::Number(NumberView::NegInt(-32601i64 as i64))),
        ("message"@, JsonView::Str("method not supported by tscode one-shot LSP client"@)),
    );
    assert(laws::has(refusal, "error"@, error));
    let failed = params::apply_edit_answer(id, false)->Object_0[2].1;
    lemma_has_three(version, ("id"@, id), ("result"@, failed));
    lemma_has_two(
        ("applied"@, JsonView::Bool(false)),
        ("failureReason"@, JsonView::Str("tscode did not receive a workspace edit"@)),
    );
    assert(laws::has(params::apply_edit_answer(id, false), "result"@, failed));
    let applied = params::apply_edit_answer(id, true)->Object_0[2].1;
    lemma_has_three(version, ("id"@, id), ("result"@, applied));
    assert(laws::has(params::apply_edit_answer(id, true), "result"@, applied));
}

} // verus!
