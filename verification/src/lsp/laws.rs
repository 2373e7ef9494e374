//! What is read in the replies of a language server is what they say.

use vstd::prelude::*;

use crate::json;
use crate::json::JsonView;
use crate::json::NumberView;
use crate::lsp::client;
use crate::lsp::columns;
use crate::lsp::config;
use crate::lsp::config::ConfigView;
use crate::lsp::config::SettingsView;
use crate::lsp::exchange;
use crate::lsp::exchange::ActionView;
use crate::lsp::exchange::EventView;
use crate::lsp::exchange::ExchangeKind;
use crate::lsp::exchange::ExchangeView;
use crate::lsp::exchange::Phase;
use crate::lsp::exchange::Wait;
use crate::lsp::params;
use crate::lsp::parse;
use crate::lsp::uri;
use crate::lsp::CodeActionView;
use crate::lsp::CommandView;
use crate::lsp::CompletionView;
use crate::lsp::DiagnosticView;
use crate::lsp::DocumentView;
use crate::lsp::FileView;
use crate::lsp::KnownView;
use crate::lsp::LocationView;
use crate::lsp::TextEditView;
use crate::lsp::WorkspaceEditView;
use crate::path::Platform;
use crate::text;

verus! {

/// Whether an entry is the first one of an object under a key.
pub open spec fn is_first_under(
    entries: Seq<(Seq<char>, JsonView)>,
    key: Seq<char>,
    i: int,
) -> bool {
    &&& 0 <= i < entries.len()
    &&& entries[i].0 == key
    &&& forall|j: int| 0 <= j < i ==> (#[trigger] entries[j]).0 != key
}

/// Whether a value is an object that has a value under a key.
pub open spec fn has(value: JsonView, key: Seq<char>, inner: JsonView) -> bool {
    &&& value is Object
    &&& exists|i: int|
        #[trigger] is_first_under(value->Object_0, key, i) && value->Object_0[i].1 == inner
}

/// Whether a value has nothing under a key.
pub open spec fn lacks(value: JsonView, key: Seq<char>) -> bool {
    value is Object ==> forall|i: int|
        0 <= i < value->Object_0.len() ==> (#[trigger] value->Object_0[i]).0 != key
}

pub open spec fn has_text(value: JsonView, key: Seq<char>, text: Seq<char>) -> bool {
    has(value, key, JsonView::Str(text))
}

pub open spec fn has_number(value: JsonView, key: Seq<char>, n: u64) -> bool {
    has(value, key, JsonView::Number(NumberView::PosInt(n)))
}

proof fn lemma_key_index(entries: Seq<(Seq<char>, JsonView)>, key: Seq<char>, i: int)
    requires
        is_first_under(entries, key, i),
    ensures
        json::key_index(entries, key) == i,
    decreases i,
{
    if i > 0 {
        assert(entries[0].0 != key);
        let rest = entries.drop_first();
        assert forall|j: int| 0 <= j < i - 1 implies (#[trigger] rest[j]).0 != key by {
            assert(rest[j] == entries[j + 1]);
        }
        lemma_key_index(rest, key, i - 1);
    }
}

proof fn lemma_no_key(entries: Seq<(Seq<char>, JsonView)>, key: Seq<char>)
    requires
        forall|i: int| 0 <= i < entries.len() ==> (#[trigger] entries[i]).0 != key,
    ensures
        json::key_index(entries, key) == entries.len(),
    decreases entries.len(),
{
    if entries.len() > 0 {
        assert(entries[0].0 != key);
        let rest = entries.drop_first();
        assert forall|j: int| 0 <= j < rest.len() implies (#[trigger] rest[j]).0 != key by {
            assert(rest[j] == entries[j + 1]);
        }
        lemma_no_key(rest, key);
    }
}

/// What an object has under a key is found there, whatever else it has, and what it
/// lacks is not found.
pub proof fn members_are_found_by_their_keys(value: JsonView, key: Seq<char>, inner: JsonView)
    ensures
        has(value, key, inner) ==> value.get(key) == Some(inner),
        lacks(value, key) ==> value.get(key) is None,
{
    if let JsonView::Object(entries) = value {
        if has(value, key, inner) {
            let i = choose|i: int|
                #[trigger] is_first_under(entries, key, i) && entries[i].1 == inner;
            lemma_key_index(entries, key, i);
        }
        if lacks(value, key) {
            lemma_no_key(entries, key);
        }
    }
}

/// A point of a document.
pub open spec fn is_point(value: JsonView, line: u64, character: u64) -> bool {
    has_number(value, "line"@, line) && has_number(value, "character"@, character)
}

proof fn lemma_point(value: JsonView, line: u64, character: u64)
    requires
        is_point(value, line, character),
    ensures
        json::number_in(value.get("line"@)) == Some(line),
        json::number_in(value.get("character"@)) == Some(character),
{
    members_are_found_by_their_keys(
        value,
        "line"@,
        JsonView::Number(NumberView::PosInt(line)),
    );
    members_are_found_by_their_keys(
        value,
        "character"@,
        JsonView::Number(NumberView::PosInt(character)),
    );
}

/// An edit as a server writes it: a range from one point to another, and a text.
pub struct WrittenEdit {
    pub value: JsonView,
    pub range: JsonView,
    pub start: JsonView,
    pub end: JsonView,
    pub start_line: u64,
    pub start_character: u64,
    pub end_line: u64,
    pub end_character: u64,
    pub new_text: Seq<char>,
}

impl WrittenEdit {
    pub open spec fn wf(self) -> bool {
        &&& has(self.value, "range"@, self.range)
        &&& has(self.range, "start"@, self.start)
        &&& has(self.range, "end"@, self.end)
        &&& is_point(self.start, self.start_line, self.start_character)
        &&& is_point(self.end, self.end_line, self.end_character)
        &&& has_text(self.value, "newText"@, self.new_text)
        &&& self.start_line <= usize::MAX
        &&& self.start_character <= usize::MAX
        &&& self.end_line <= usize::MAX
        &&& self.end_character <= usize::MAX
    }

    /// Whether an edit of a file replaces this range by this text.
    pub open spec fn is_read_as(self, edit: TextEditView, path: Seq<char>) -> bool {
        &&& edit.path == path
        &&& edit.start_line == self.start_line
        &&& edit.start_utf16_col == self.start_character
        &&& edit.end_line == self.end_line
        &&& edit.end_utf16_col == self.end_character
        &&& edit.new_text == self.new_text
    }
}

/// An edit that is read covers exactly the range that was written, and brings
/// exactly the text that was written.
pub proof fn edits_cover_the_range_that_was_written(edit: WrittenEdit, path: Seq<char>)
    requires
        edit.wf(),
    ensures
        parse::text_edit(edit.value, path) is Some,
        edit.is_read_as(parse::text_edit(edit.value, path)->0, path),
{
    members_are_found_by_their_keys(edit.value, "range"@, edit.range);
    members_are_found_by_their_keys(edit.range, "start"@, edit.start);
    members_are_found_by_their_keys(edit.range, "end"@, edit.end);
    members_are_found_by_their_keys(edit.value, "newText"@, JsonView::Str(edit.new_text));
    lemma_point(edit.start, edit.start_line, edit.start_character);
    lemma_point(edit.end, edit.end_line, edit.end_character);
}

/// A point of a document with nothing but its two numbers.
pub open spec fn point_value(line: u64, character: u64) -> JsonView {
    JsonView::Object(
        seq![
            ("line"@, JsonView::Number(NumberView::PosInt(line))),
            ("character"@, JsonView::Number(NumberView::PosInt(character))),
        ],
    )
}

/// An edit with nothing but its range and its text.
pub open spec fn edit_value(
    start_line: u64,
    start_character: u64,
    end_line: u64,
    end_character: u64,
    new_text: Seq<char>,
) -> JsonView {
    JsonView::Object(
        seq![
            (
                "range"@,
                JsonView::Object(
                    seq![
                        ("start"@, point_value(start_line, start_character)),
                        ("end"@, point_value(end_line, end_character)),
                    ],
                ),
            ),
            ("newText"@, JsonView::Str(new_text)),
        ],
    )
}

proof fn lemma_first_member(
    entries: Seq<(Seq<char>, JsonView)>,
    key: Seq<char>,
    inner: JsonView,
)
    requires
        entries.len() > 0,
        entries[0] == (key, inner),
    ensures
        has(JsonView::Object(entries), key, inner),
{
    let value = JsonView::Object(entries);
    assert(is_first_under(value->Object_0, key, 0));
}

proof fn lemma_second_member(
    entries: Seq<(Seq<char>, JsonView)>,
    key: Seq<char>,
    inner: JsonView,
)
    requires
        entries.len() > 1,
        entries[0].0 != key,
        entries[1] == (key, inner),
    ensures
        has(JsonView::Object(entries), key, inner),
{
    let value = JsonView::Object(entries);
    assert(is_first_under(value->Object_0, key, 1));
}

proof fn lemma_point_value(line: u64, character: u64)
    ensures
        is_point(point_value(line, character), line, character),
{
    reveal_strlit("line");
    reveal_strlit("character");
    assert("line"@.len() != "character"@.len());
    let entries = seq![
        ("line"@, JsonView::Number(NumberView::PosInt(line))),
        ("character"@, JsonView::Number(NumberView::PosInt(character))),
    ];
    lemma_first_member(entries, "line"@, JsonView::Number(NumberView::PosInt(line)));
    lemma_second_member(entries, "character"@, JsonView::Number(NumberView::PosInt(character)));
}

/// An edit that is read from a range of four numbers and a text is the edit with
/// these numbers and this text.
pub proof fn plain_edits_are_read_as_they_are(
    start_line: u64,
    start_character: u64,
    end_line: u64,
    end_character: u64,
    new_text: Seq<char>,
    path: Seq<char>,
)
    requires
        start_line <= usize::MAX,
        start_character <= usize::MAX,
        end_line <= usize::MAX,
        end_character <= usize::MAX,
    ensures
        parse::text_edit(
            edit_value(start_line, start_character, end_line, end_character, new_text),
            path,
        ) == Some(
            TextEditView {
                path,
                start_line: start_line as usize,
                start_utf16_col: start_character as usize,
                end_line: end_line as usize,
                end_utf16_col: end_character as usize,
                new_text,
            },
        ),
{
    reveal_strlit("range");
    reveal_strlit("newText");
    reveal_strlit("start");
    reveal_strlit("end");
    assert("range"@.len() != "newText"@.len());
    assert("start"@.len() != "end"@.len());
    let start = point_value(start_line, start_character);
    let end = point_value(end_line, end_character);
    let points = seq![("start"@, start), ("end"@, end)];
    let range = JsonView::Object(points);
    let members = seq![("range"@, range), ("newText"@, JsonView::Str(new_text))];
    lemma_point_value(start_line, start_character);
    lemma_point_value(end_line, end_character);
    lemma_first_member(points, "start"@, start);
    lemma_second_member(points, "end"@, end);
    lemma_first_member(members, "range"@, range);
    lemma_second_member(members, "newText"@, JsonView::Str(new_text));
    edits_cover_the_range_that_was_written(
        WrittenEdit {
            value: edit_value(start_line, start_character, end_line, end_character, new_text),
            range,
            start,
            end,
            start_line,
            start_character,
            end_line,
            end_character,
            new_text,
        },
        path,
    );
}

/// A value without a range, or without a text, is no edit.
pub proof fn edits_need_a_range_and_a_text(value: JsonView, path: Seq<char>)
    ensures
        lacks(value, "range"@) || lacks(value, "newText"@) ==> parse::text_edit(value, path) is None,
{
    members_are_found_by_their_keys(value, "range"@, JsonView::Null);
    members_are_found_by_their_keys(value, "newText"@, JsonView::Null);
}

/// What is picked of items each of which gives something is what they give, in their
/// order.
pub proof fn all_items_are_picked<T>(
    items: Seq<JsonView>,
    pick: spec_fn(JsonView) -> Option<T>,
    out: Seq<T>,
)
    requires
        items.len() == out.len(),
        forall|i: int| 0 <= i < items.len() ==> pick(#[trigger] items[i]) == Some(out[i]),
    ensures
        json::picked(items, pick) == out,
    decreases items.len(),
{
    if items.len() > 0 {
        let head = items.drop_last();
        let before = out.drop_last();
        assert forall|i: int| 0 <= i < head.len() implies pick(#[trigger] head[i]) == Some(
            before[i],
        ) by {
            assert(head[i] == items[i]);
        }
        all_items_are_picked(head, pick, before);
        assert(pick(items[items.len() - 1]) == Some(out[out.len() - 1]));
        assert(before.push(out.last()) =~= out);
    } else {
        assert(json::picked(items, pick) =~= out);
    }
}

/// Items that give nothing are left out, and the others stay in their order.
pub proof fn picking_goes_item_by_item<T>(
    a: Seq<JsonView>,
    b: Seq<JsonView>,
    pick: spec_fn(JsonView) -> Option<T>,
)
    ensures
        json::picked(a + b, pick) == json::picked(a, pick) + json::picked(b, pick),
        b.len() == 1 ==> json::picked(b, pick) == (match pick(b[0]) {
            Some(item) => seq![item],
            None => Seq::empty(),
        }),
    decreases b.len(),
{
    if b.len() > 0 {
        picking_goes_item_by_item(a, b.drop_last(), pick);
        assert((a + b).drop_last() =~= a + b.drop_last());
        assert(json::picked(a + b, pick) =~= json::picked(a, pick) + json::picked(b, pick));
        if b.len() == 1 {
            assert(b.drop_last() =~= Seq::<JsonView>::empty());
            assert(json::picked(b.drop_last(), pick) =~= Seq::<T>::empty());
            assert(json::picked(b, pick) =~= (match pick(b[0]) {
                Some(item) => seq![item],
                None => Seq::empty(),
            }));
        }
    } else {
        assert(a + b =~= a);
        assert(json::picked(a + b, pick) =~= json::picked(a, pick) + json::picked(b, pick));
    }
}

/// Whether edits of a file are those that were written, one by one.
pub open spec fn are_read_as(
    written: Seq<WrittenEdit>,
    edits: Seq<TextEditView>,
    path: Seq<char>,
) -> bool {
    &&& edits.len() == written.len()
    &&& forall|i: int|
        0 <= i < written.len() ==> (#[trigger] written[i]).is_read_as(edits[i], path)
}

/// The array of edits as they were written.
pub open spec fn edits_value(written: Seq<WrittenEdit>) -> JsonView {
    JsonView::Array(Seq::new(written.len(), |i: int| written[i].value))
}

/// A path as it is read in the URI that names it: on Unix, one without backslashes.
pub open spec fn is_plain_path(path: Seq<char>) -> bool {
    forall|i: int| 0 <= i < path.len() ==> path[i] != '\\'
}

proof fn lemma_edit_list(written: Seq<WrittenEdit>, path: Seq<char>)
    requires
        forall|i: int| 0 <= i < written.len() ==> (#[trigger] written[i]).wf(),
        is_plain_path(path),
    ensures
        are_read_as(
            written,
            parse::text_edits(uri::file_uri(path), edits_value(written), Platform::Unix),
            path,
        ),
{
    let items = Seq::new(written.len(), |i: int| written[i].value);
    let out = Seq::new(written.len(), |i: int| parse::text_edit(written[i].value, path)->0);
    assert forall|i: int| 0 <= i < items.len() implies parse::editing(path)(#[trigger] items[i])
        == Some(out[i]) by {
        edits_cover_the_range_that_was_written(written[i], path);
    }
    all_items_are_picked(items, parse::editing(path), out);
    uri::file_uri_round_trip_plain(path, Platform::Unix);
    assert forall|i: int| 0 <= i < written.len() implies (#[trigger] written[i]).is_read_as(
        out[i],
        path,
    ) by {
        edits_cover_the_range_that_was_written(written[i], path);
    }
}

/// The edits of a rename or of a code action are those that the server listed under
/// the file, all of them and in their order, whether it listed them as changes or as
/// document changes.
pub proof fn workspace_edits_are_read_as_written(
    value: JsonView,
    written: Seq<WrittenEdit>,
    path: Seq<char>,
    server: Seq<char>,
    document: JsonView,
    change: JsonView,
)
    requires
        forall|i: int| 0 <= i < written.len() ==> (#[trigger] written[i]).wf(),
        written.len() > 0,
        is_plain_path(path),
        ({
            ||| {
                &&& has(
                    value,
                    "changes"@,
                    JsonView::Object(seq![(uri::file_uri(path), edits_value(written))]),
                )
                &&& lacks(value, "documentChanges"@)
            }
            ||| {
                &&& has(value, "documentChanges"@, JsonView::Array(seq![change]))
                &&& lacks(value, "changes"@)
                &&& has(change, "textDocument"@, document)
                &&& has_text(document, "uri"@, uri::file_uri(path))
                &&& has(change, "edits"@, edits_value(written))
            }
        }),
    ensures
        ({
            let edit = parse::workspace_edit(Some(value), server, Platform::Unix);
            &&& edit is Some
            &&& edit->0.server == server
            &&& are_read_as(written, edit->0.edits, path)
        }),
{
    let own = parse::text_edits(uri::file_uri(path), edits_value(written), Platform::Unix);
    lemma_edit_list(written, path);
    members_are_found_by_their_keys(value, "documentChanges"@, JsonView::Array(seq![change]));
    let entries = seq![(uri::file_uri(path), edits_value(written))];
    members_are_found_by_their_keys(value, "changes"@, JsonView::Object(entries));
    members_are_found_by_their_keys(change, "textDocument"@, document);
    members_are_found_by_their_keys(document, "uri"@, JsonView::Str(uri::file_uri(path)));
    members_are_found_by_their_keys(change, "edits"@, edits_value(written));
    assert(entries.drop_last() =~= Seq::<(Seq<char>, JsonView)>::empty());
    assert(seq![change].drop_last() =~= Seq::<JsonView>::empty());
    assert(parse::change_edits(entries, Platform::Unix) =~= own) by {
        assert(parse::change_edits(entries.drop_last(), Platform::Unix).len() == 0);
    }
    reveal_with_fuel(parse::document_changes_edits, 2);
    let edits = parse::workspace_edits(value, Platform::Unix);
    assert(edits =~= own);
}

/// The edits of a workspace edit are those of all its files, one file after the
/// other, and those of its document changes behind them.
pub proof fn edits_of_several_files_follow_each_other(
    a: Seq<(Seq<char>, JsonView)>,
    b: Seq<(Seq<char>, JsonView)>,
    c: Seq<JsonView>,
    d: Seq<JsonView>,
    value: JsonView,
    platform: Platform,
)
    ensures
        parse::change_edits(a + b, platform) == parse::change_edits(a, platform)
            + parse::change_edits(b, platform),
        parse::document_changes_edits(c + d, platform) == parse::document_changes_edits(c, platform)
            + parse::document_changes_edits(d, platform),
        has(value, "changes"@, JsonView::Object(a)) && has(
            value,
            "documentChanges"@,
            JsonView::Array(c),
        ) ==> parse::workspace_edits(value, platform) == parse::change_edits(a, platform)
            + parse::document_changes_edits(c, platform),
{
    lemma_changes_add(a, b, platform);
    lemma_document_changes_add(c, d, platform);
    members_are_found_by_their_keys(value, "changes"@, JsonView::Object(a));
    members_are_found_by_their_keys(value, "documentChanges"@, JsonView::Array(c));
}

proof fn lemma_changes_add(
    a: Seq<(Seq<char>, JsonView)>,
    b: Seq<(Seq<char>, JsonView)>,
    platform: Platform,
)
    ensures
        parse::change_edits(a + b, platform) == parse::change_edits(a, platform)
            + parse::change_edits(b, platform),
    decreases b.len(),
{
    if b.len() > 0 {
        lemma_changes_add(a, b.drop_last(), platform);
        assert((a + b).drop_last() =~= a + b.drop_last());
        assert(parse::change_edits(a + b, platform) =~= parse::change_edits(a, platform)
            + parse::change_edits(b, platform));
    } else {
        assert(a + b =~= a);
        assert(parse::change_edits(a + b, platform) =~= parse::change_edits(a, platform)
            + parse::change_edits(b, platform));
    }
}

proof fn lemma_document_changes_add(a: Seq<JsonView>, b: Seq<JsonView>, platform: Platform)
    ensures
        parse::document_changes_edits(a + b, platform) == parse::document_changes_edits(a, platform)
            + parse::document_changes_edits(b, platform),
    decreases b.len(),
{
    if b.len() > 0 {
        lemma_document_changes_add(a, b.drop_last(), platform);
        assert((a + b).drop_last() =~= a + b.drop_last());
        assert(parse::document_changes_edits(a + b, platform) =~= parse::document_changes_edits(
            a,
            platform,
        ) + parse::document_changes_edits(b, platform));
    } else {
        assert(a + b =~= a);
        assert(parse::document_changes_edits(a + b, platform) =~= parse::document_changes_edits(
            a,
            platform,
        ) + parse::document_changes_edits(b, platform));
    }
}

/// The edits of a formatted document are those of the reply, all of them and in
/// their order, and are edits of that document.
pub proof fn formatting_edits_are_read_as_written(
    written: Seq<WrittenEdit>,
    path: Seq<char>,
    server: Seq<char>,
)
    requires
        forall|i: int| 0 <= i < written.len() ==> (#[trigger] written[i]).wf(),
        is_plain_path(path),
    ensures
        ({
            let edit = parse::formatting_edit(
                Some(edits_value(written)),
                path,
                server,
                Platform::Unix,
            );
            &&& edit is Some <==> written.len() > 0
            &&& edit is Some ==> edit->0.server == server && are_read_as(
                written,
                edit->0.edits,
                path,
            )
        }),
{
    lemma_edit_list(written, path);
}

/// A place as a server writes it: the file, and the point where a range starts. A
/// link may name it as a target, and the part of it that is to be selected before the
/// whole of it.
pub open spec fn is_written_place(
    value: JsonView,
    uri: Seq<char>,
    range: JsonView,
    start: JsonView,
    line: u64,
    character: u64,
) -> bool {
    &&& {
        ||| has_text(value, "uri"@, uri)
        ||| lacks(value, "uri"@) && has_text(value, "targetUri"@, uri)
    }
    &&& {
        ||| has(value, "range"@, range)
        ||| lacks(value, "range"@) && has(value, "targetSelectionRange"@, range)
        ||| lacks(value, "range"@) && lacks(value, "targetSelectionRange"@) && has(
            value,
            "targetRange"@,
            range,
        )
    }
    &&& has(range, "start"@, start)
    &&& is_point(start, line, character)
    &&& line <= usize::MAX
    &&& character <= usize::MAX
}

/// A place that is read is in the file and on the line that the server names. Its
/// column counts the characters of the line up to the server's column, and its
/// preview is the line without the blanks around it, where the line is known and not
/// blank.
pub proof fn places_are_read_as_written(
    value: JsonView,
    path: Seq<char>,
    range: JsonView,
    start: JsonView,
    line: u64,
    character: u64,
    known: KnownView,
    server: Seq<char>,
)
    requires
        is_plain_path(path),
        is_written_place(value, uri::file_uri(path), range, start, line, character),
        known.platform == Platform::Unix,
    ensures
        ({
            let found = parse::location(value, known, server);
            let shown = match parse::line_text(known, path, line as usize) {
                Some(text) => text,
                None => Seq::empty(),
            };
            &&& found is Some
            &&& found->0.path == path
            &&& found->0.line == line
            &&& found->0.server == server
            &&& found->0.col == columns::char_col(shown, character as int) as usize
            &&& found->0.preview == if text::trimmed(shown).len() == 0 {
                None
            } else {
                Some(text::trimmed(shown))
            }
        }),
{
    let uri = uri::file_uri(path);
    uri::file_uri_round_trip_plain(path, Platform::Unix);
    members_are_found_by_their_keys(value, "uri"@, JsonView::Str(uri));
    members_are_found_by_their_keys(value, "targetUri"@, JsonView::Str(uri));
    members_are_found_by_their_keys(value, "range"@, range);
    members_are_found_by_their_keys(value, "targetSelectionRange"@, range);
    members_are_found_by_their_keys(value, "targetRange"@, range);
    members_are_found_by_their_keys(range, "start"@, start);
    lemma_point(start, line, character);
}

/// A reply names one place, or several in an array, or none.
pub proof fn all_places_of_a_reply_are_read(
    items: Seq<JsonView>,
    value: JsonView,
    out: Seq<LocationView>,
    known: KnownView,
    server: Seq<char>,
)
    requires
        items.len() == out.len(),
        forall|i: int|
            0 <= i < items.len() ==> parse::location(#[trigger] items[i], known, server) == Some(
                out[i],
            ),
    ensures
        parse::locations(Some(JsonView::Array(items)), known, server) == out,
        value is Object ==> parse::locations(Some(value), known, server) == (match parse::location(
            value,
            known,
            server,
        ) {
            Some(place) => seq![place],
            None => Seq::empty(),
        }),
        parse::locations(Some(JsonView::Null), known, server).len() == 0,
        parse::locations(None, known, server).len() == 0,
{
    let pick = parse::locating(known, server);
    assert forall|i: int| 0 <= i < items.len() implies pick(#[trigger] items[i]) == Some(
        out[i],
    ) by {}
    all_items_are_picked(items, pick, out);
    picking_goes_item_by_item(Seq::empty(), seq![value], pick);
}

/// A completion is read with its label, its detail or else its documentation, and the
/// text of its edit or else the text to insert.
pub proof fn completions_are_read_as_written(
    value: JsonView,
    label: Seq<char>,
    detail: Seq<char>,
    edit: JsonView,
    inserted: Seq<char>,
    server: Seq<char>,
)
    requires
        has_text(value, "label"@, label),
    ensures
        ({
            let found = parse::completion(value, server);
            &&& found is Some
            &&& found->0.label == label
            &&& found->0.server == server
            &&& has_text(value, "detail"@, detail) ==> found->0.detail == Some(detail)
            &&& lacks(value, "detail"@) && has_text(value, "documentation"@, detail)
                ==> found->0.detail == Some(detail)
            &&& lacks(value, "detail"@) && has(value, "documentation"@, edit) && has_text(
                edit,
                "value"@,
                detail,
            ) ==> found->0.detail == Some(detail)
            &&& lacks(value, "detail"@) && lacks(value, "documentation"@)
                ==> found->0.detail is None
            &&& has(value, "textEdit"@, edit) && has_text(edit, "newText"@, inserted)
                ==> found->0.insert_text == Some(inserted)
            &&& lacks(value, "textEdit"@) && has_text(value, "insertText"@, inserted)
                ==> found->0.insert_text == Some(inserted)
            &&& lacks(value, "textEdit"@) && lacks(value, "insertText"@)
                ==> found->0.insert_text is None
        }),
{
    members_are_found_by_their_keys(value, "label"@, JsonView::Str(label));
    members_are_found_by_their_keys(value, "detail"@, JsonView::Str(detail));
    members_are_found_by_their_keys(value, "documentation"@, JsonView::Str(detail));
    members_are_found_by_their_keys(value, "documentation"@, edit);
    members_are_found_by_their_keys(edit, "value"@, JsonView::Str(detail));
    members_are_found_by_their_keys(value, "textEdit"@, edit);
    members_are_found_by_their_keys(edit, "newText"@, JsonView::Str(inserted));
    members_are_found_by_their_keys(value, "insertText"@, JsonView::Str(inserted));
}

/// All completions of a reply are read, in their order, whether it is an array or
/// holds one.
pub proof fn all_completions_of_a_reply_are_read(
    items: Seq<JsonView>,
    value: JsonView,
    out: Seq<CompletionView>,
    server: Seq<char>,
)
    requires
        items.len() == out.len(),
        forall|i: int|
            0 <= i < items.len() ==> parse::completion(#[trigger] items[i], server) == Some(out[i]),
        has(value, "items"@, JsonView::Array(items)),
    ensures
        parse::completions(Some(JsonView::Array(items)), server) == out,
        parse::completions(Some(value), server) == out,
{
    let pick = parse::completing(server);
    assert forall|i: int| 0 <= i < items.len() implies pick(#[trigger] items[i]) == Some(
        out[i],
    ) by {}
    all_items_are_picked(items, pick, out);
    members_are_found_by_their_keys(value, "items"@, JsonView::Array(items));
}

/// A problem that is read is on the line that the server names, with the message that
/// it gives, without the blanks around it, and with its severity, source and code.
/// One without a message is left out.
pub proof fn problems_are_read_as_written(
    value: JsonView,
    range: JsonView,
    start: JsonView,
    line: u64,
    character: u64,
    message: Seq<char>,
    severity: u64,
    source: Seq<char>,
    code: Seq<char>,
    path: Seq<char>,
    known: KnownView,
    server: Seq<char>,
)
    requires
        has(value, "range"@, range),
        has(range, "start"@, start),
        is_point(start, line, character),
        line <= usize::MAX,
        character <= usize::MAX,
        has_text(value, "message"@, message),
    ensures
        ({
            let found = parse::diagnostic(value, path, known, server);
            let shown = match parse::line_text(known, path, line as usize) {
                Some(text) => text,
                None => Seq::empty(),
            };
            &&& found is Some <==> text::trimmed(message).len() > 0
            &&& found is Some ==> {
                let problem = found->0;
                &&& problem.path == path
                &&& problem.line == line
                &&& problem.col == columns::char_col(shown, character as int) as usize
                &&& problem.message == text::trimmed(message)
                &&& problem.server == server
                &&& has_number(value, "severity"@, severity) ==> {
                    &&& severity == 1 ==> problem.severity is Error
                    &&& severity == 2 ==> problem.severity is Warning
                    &&& severity == 3 ==> problem.severity is Information
                    &&& severity == 4 ==> problem.severity is Hint
                }
                &&& lacks(value, "severity"@) ==> problem.severity is Unknown
                &&& has_text(value, "source"@, source) ==> problem.source == Some(source)
                &&& lacks(value, "source"@) ==> problem.source is None
                &&& has_text(value, "code"@, code) ==> problem.code == Some(code)
                &&& has_number(value, "code"@, severity) ==> problem.code == Some(
                    text::decimal(severity as nat),
                )
                &&& lacks(value, "code"@) ==> problem.code is None
            }
        }),
{
    members_are_found_by_their_keys(value, "range"@, range);
    members_are_found_by_their_keys(range, "start"@, start);
    lemma_point(start, line, character);
    members_are_found_by_their_keys(value, "message"@, JsonView::Str(message));
    let number = JsonView::Number(NumberView::PosInt(severity));
    members_are_found_by_their_keys(value, "severity"@, number);
    members_are_found_by_their_keys(value, "source"@, JsonView::Str(source));
    members_are_found_by_their_keys(value, "code"@, JsonView::Str(code));
    members_are_found_by_their_keys(value, "code"@, number);
}

/// A notification with this method publishes the problems that it lists, all of them
/// and in their order, of the file that it names; any other message publishes none.
pub proof fn published_problems_are_those_that_are_listed(
    value: JsonView,
    method: Seq<char>,
    params: JsonView,
    path: Seq<char>,
    items: Seq<JsonView>,
    out: Seq<DiagnosticView>,
    known: KnownView,
    server: Seq<char>,
)
    requires
        has_text(value, "method"@, method),
        has(value, "params"@, params),
        has_text(params, "uri"@, uri::file_uri(path)),
        has(params, "diagnostics"@, JsonView::Array(items)),
        is_plain_path(path),
        known.platform == Platform::Unix,
        items.len() == out.len(),
        forall|i: int|
            0 <= i < items.len() ==> parse::diagnostic(#[trigger] items[i], path, known, server)
                == Some(out[i]),
    ensures
        parse::publish_diagnostics(value, known, server) == if method
            == "textDocument/publishDiagnostics"@ {
            Some(out)
        } else {
            None
        },
{
    uri::file_uri_round_trip_plain(path, Platform::Unix);
    members_are_found_by_their_keys(value, "method"@, JsonView::Str(method));
    members_are_found_by_their_keys(value, "params"@, params);
    members_are_found_by_their_keys(params, "uri"@, JsonView::Str(uri::file_uri(path)));
    members_are_found_by_their_keys(params, "diagnostics"@, JsonView::Array(items));
    let pick = parse::diagnosing(path, known, server);
    assert forall|i: int| 0 <= i < items.len() implies pick(#[trigger] items[i]) == Some(
        out[i],
    ) by {}
    all_items_are_picked(items, pick, out);
}

/// What is shown of a hover is its text without the blanks around it: that of a
/// string, that of markup, or those of several, with an empty line between them,
/// blank ones left out. Where that is blank, nothing is shown.
pub proof fn hovers_are_read_as_written(
    result: JsonView,
    contents: JsonView,
    first: Seq<char>,
    second: JsonView,
    more: Seq<char>,
)
    requires
        has(result, "contents"@, contents),
        !(contents is Null),
    ensures
        ({
            let found = parse::hover_text(Some(result));
            let shown = |text: Seq<char>|
                if text::trimmed(text).len() == 0 {
                    None
                } else {
                    Some(text::trimmed(text))
                };
            &&& contents == JsonView::Str(first) ==> found == shown(first)
            &&& has_text(contents, "value"@, first) ==> found == shown(first)
            &&& contents == JsonView::Array(seq![JsonView::Str(first), second]) && has_text(
                second,
                "value"@,
                more,
            ) && text::trimmed(first).len() > 0 && text::trimmed(more).len() > 0 ==> found
                == shown(first + seq!['\n', '\n'] + more)
            &&& contents == JsonView::Array(seq![JsonView::Str(first), second]) && has_text(
                second,
                "value"@,
                more,
            ) && text::trimmed(first).len() == 0 && text::trimmed(more).len() > 0 ==> found
                == shown(more)
        }),
        parse::hover_text(None) is None,
        parse::hover_text(Some(JsonView::Null)) is None,
{
    members_are_found_by_their_keys(result, "contents"@, contents);
    assert(result.get("contents"@) == Some(contents));
    if has_text(contents, "value"@, first) {
        lemma_markup(contents, first);
    }
    if contents == JsonView::Array(seq![JsonView::Str(first), second]) && has_text(
        second,
        "value"@,
        more,
    ) {
        lemma_markup(second, more);
        let items = seq![JsonView::Str(first), second];
        let none = Seq::<JsonView>::empty();
        assert(items.drop_last() =~= seq![JsonView::Str(first)]);
        assert(seq![JsonView::Str(first)].drop_last() =~= none);
        reveal_with_fuel(parse::marked_parts, 3);
        reveal_with_fuel(parse::marked, 3);
        reveal_with_fuel(text::joined, 3);
        reveal_strlit("\n\n");
        assert("\n\n"@ =~= seq!['\n', '\n']);
        let parts = parse::marked_parts(items);
        assert(parse::marked_parts(none).len() == 0);
        if text::trimmed(first).len() > 0 && text::trimmed(more).len() > 0 {
            assert(parts =~= seq![first, more]);
            assert(seq![first, more].drop_last() =~= seq![first]);
        } else if text::trimmed(more).len() > 0 {
            assert(parts =~= seq![more]);
        }
    }
}

proof fn lemma_markup(value: JsonView, text: Seq<char>)
    requires
        has_text(value, "value"@, text),
    ensures
        parse::marked(value) == text,
{
    let entries = value->Object_0;
    let i = choose|i: int|
        #[trigger] is_first_under(entries, "value"@, i) && entries[i].1 == JsonView::Str(text);
    lemma_key_index(entries, "value"@, i);
    reveal_with_fuel(parse::marked, 2);
}

/// A code action is read with its title, its kind, whether it is preferred, its edit
/// and its command; one without a title is left out.
pub proof fn code_actions_are_read_as_written(
    value: JsonView,
    title: Seq<char>,
    kind: Seq<char>,
    edit: JsonView,
    preferred: bool,
    server: Seq<char>,
    platform: Platform,
)
    requires
        has_text(value, "title"@, title),
    ensures
        ({
            let found = parse::code_action(value, server, platform);
            &&& found is Some <==> text::trimmed(title).len() > 0
            &&& found is Some ==> {
                let action = found->0;
                &&& action.title == text::trimmed(title)
                &&& action.server == server
                &&& has_text(value, "kind"@, kind) ==> action.kind == Some(kind)
                &&& lacks(value, "kind"@) ==> action.kind is None
                &&& has(value, "isPreferred"@, JsonView::Bool(preferred)) ==> action.is_preferred
                    == preferred
                &&& lacks(value, "isPreferred"@) ==> !action.is_preferred
                &&& has(value, "edit"@, edit) ==> action.edit == parse::workspace_edit(
                    Some(edit),
                    server,
                    platform,
                )
                &&& lacks(value, "edit"@) ==> action.edit is None
                &&& action.command == parse::command(value, text::trimmed(title))
                &&& action.command is Some ==> action.command_title == Some(
                    action.command->0.title,
                )
                &&& action.command is None ==> action.command_title is None
            }
        }),
        parse::code_actions(None, server, platform).len() == 0,
{
    members_are_found_by_their_keys(value, "title"@, JsonView::Str(title));
    members_are_found_by_their_keys(value, "kind"@, JsonView::Str(kind));
    members_are_found_by_their_keys(value, "isPreferred"@, JsonView::Bool(preferred));
    members_are_found_by_their_keys(value, "edit"@, edit);
}

/// All actions of a reply are read, in their order.
pub proof fn all_code_actions_of_a_reply_are_read(
    items: Seq<JsonView>,
    out: Seq<CodeActionView>,
    server: Seq<char>,
    platform: Platform,
)
    requires
        items.len() == out.len(),
        forall|i: int|
            0 <= i < items.len() ==> parse::code_action(#[trigger] items[i], server, platform)
                == Some(out[i]),
    ensures
        parse::code_actions(Some(JsonView::Array(items)), server, platform) == out,
{
    let pick = parse::acting(server, platform);
    assert forall|i: int| 0 <= i < items.len() implies pick(#[trigger] items[i]) == Some(
        out[i],
    ) by {}
    all_items_are_picked(items, pick, out);
}

/// The command of an action is the one that it names, with the arguments beside the
/// name: under the title of the action, or under its own where it is an object with
/// one.
pub proof fn commands_are_read_as_written(
    value: JsonView,
    inner: JsonView,
    name: Seq<char>,
    title: Seq<char>,
    fallback: Seq<char>,
    arguments: Seq<JsonView>,
)
    requires
        text::trimmed(name).len() > 0,
    ensures
        ({
            let found = parse::command(value, fallback);
            &&& has_text(value, "command"@, name) && has(
                value,
                "arguments"@,
                JsonView::Array(arguments),
            ) ==> found == Some(
                CommandView { title: fallback, command: text::trimmed(name), arguments },
            )
            &&& has(value, "command"@, inner) && has_text(inner, "command"@, name) && has(
                inner,
                "arguments"@,
                JsonView::Array(arguments),
            ) && has_text(inner, "title"@, title) ==> found == Some(
                CommandView {
                    title: if text::trimmed(title).len() > 0 {
                        text::trimmed(title)
                    } else {
                        fallback
                    },
                    command: text::trimmed(name),
                    arguments,
                },
            )
            &&& lacks(value, "command"@) ==> found is None
        }),
{
    members_are_found_by_their_keys(value, "command"@, JsonView::Str(name));
    members_are_found_by_their_keys(value, "command"@, inner);
    members_are_found_by_their_keys(value, "arguments"@, JsonView::Array(arguments));
    members_are_found_by_their_keys(inner, "command"@, JsonView::Str(name));
    members_are_found_by_their_keys(inner, "arguments"@, JsonView::Array(arguments));
    members_are_found_by_their_keys(inner, "title"@, JsonView::Str(title));
}

/// A reply is told by its number: it is the reply to a request exactly if it carries
/// the number of the request. What it brings is its result, unless it reports an error.
pub proof fn replies_are_told_by_their_numbers(value: JsonView, n: u64, id: i64, result: JsonView)
    requires
        n <= i64::MAX,
    ensures
        has_number(value, "id"@, n) ==> (exchange::has_id(value, id) <==> n == id),
        lacks(value, "id"@) ==> !exchange::has_id(value, id),
        has(value, "error"@, result) ==> exchange::response_of(value) is None,
        lacks(value, "error"@) && has(value, "result"@, result) ==> exchange::response_of(value)
            == Some(Some(result)),
        lacks(value, "error"@) && lacks(value, "result"@) ==> exchange::response_of(value) == Some(
            None::<JsonView>,
        ),
{
    members_are_found_by_their_keys(value, "id"@, JsonView::Number(NumberView::PosInt(n)));
    members_are_found_by_their_keys(value, "error"@, result);
    members_are_found_by_their_keys(value, "result"@, result);
}

/// The reply to the request ends an exchange that waits for it, and is kept; a message
/// with another number is passed over.
pub proof fn replies_are_awaited(
    before: ExchangeView,
    value: JsonView,
    n: u64,
    result: JsonView,
)
    requires
        before.phase is AwaitingReply,
        before.plan.kind is Request || (before.plan.kind is RequestTakingEdits && lacks(
            value,
            "method"@,
        )),
        has_number(value, "id"@, n),
        n <= i64::MAX,
        lacks(value, "error"@),
        has(value, "result"@, result),
    ensures
        ({
            let (after, action) = before.after(EventView::Received(value));
            &&& n == 2 ==> {
                &&& after.response == Some(Some(result))
                &&& after.phase is SendingShutdown
                &&& action is Send
            }
            &&& n != 2 ==> {
                &&& after == before
                &&& action == ActionView::Receive(Wait::Request)
            }
            &&& after.plan == before.plan
            &&& after.edits == before.edits
            &&& after.published == before.published
        }),
{
    replies_are_told_by_their_numbers(value, n, 2, result);
    members_are_found_by_their_keys(value, "method"@, JsonView::Null);
}

/// An exchange about problems keeps the last message that publishes any list of them,
/// and ends with the first that publishes a problem; all other messages are passed over.
pub proof fn published_problems_are_kept(before: ExchangeView, value: JsonView)
    requires
        before.phase is AwaitingReply,
        before.plan.kind is Diagnostics,
    ensures
        ({
            let (after, action) = before.after(EventView::Received(value));
            let listed = parse::published(value, before.plan.platform);
            &&& listed is Some ==> after.published == Some(value)
            &&& listed is None ==> after == before && action == ActionView::Receive(Wait::Request)
            &&& after.phase is SendingShutdown ==> exchange::publishes_some(
                value,
                before.plan.config.name,
                before.plan.platform,
            )
            &&& exchange::publishes_some(value, before.plan.config.name, before.plan.platform)
                ==> after.phase is SendingShutdown
            &&& after.response == before.response
        }),
{
}

/// What an exchange answers is what its reply brought, and it knows of its document
/// what it was asked about.
pub proof fn answers_are_what_the_reply_brought(
    exchange: ExchangeView,
    result: JsonView,
    aliases: Seq<Seq<char>>,
    others: Seq<FileView>,
)
    ensures
        exchange.response == Some(Some(result)) ==> client::result_of(exchange) == Some(result),
        exchange.response is None ==> client::result_of(exchange) is None,
        ({
            let known = client::known_to(exchange, aliases, others);
            &&& known.path == exchange.plan.path
            &&& known.text == exchange.plan.text
            &&& known.aliases == aliases
            &&& known.others == others
            &&& known.platform == exchange.plan.platform
        }),
{
}

/// The edits of a command are those that the server asked for on the way, and behind
/// them those of its reply.
pub proof fn edits_of_commands_are_all_kept(exchange: ExchangeView, edit: WorkspaceEditView)
    ensures
        parse::workspace_edit(
            client::result_of(exchange),
            exchange.plan.config.name,
            exchange.plan.platform,
        ) == Some(edit) ==> client::command_edits(exchange) == exchange.edits + edit.edits,
        client::result_of(exchange) is None ==> client::command_edits(exchange) == exchange.edits,
{
}

/// A line of the document is read in its text as it stands, and a line of another file
/// in the first text that is at hand under its path.
pub proof fn lines_are_read_in_their_files(
    known: KnownView,
    path: Seq<char>,
    line: usize,
    k: int,
)
    ensures
        path == known.path ==> parse::line_text(known, path, line) == text::line_at(
            known.text,
            line as nat,
        ),
        known.aliases.contains(path) ==> parse::line_text(known, path, line) == text::line_at(
            known.text,
            line as nat,
        ),
        !crate::path::components::is_same_path(path, known.path, known.platform)
            && !known.aliases.contains(path) && 0 <= k < known.others.len() && known.others[k].path
            == path && (forall|j: int| 0 <= j < k ==> (#[trigger] known.others[j]).path != path)
            ==> parse::line_text(known, path, line) == text::line_at(
            known.others[k].text,
            line as nat,
        ),
{
    if 0 <= k < known.others.len() && known.others[k].path == path && (forall|j: int|
        0 <= j < k ==> (#[trigger] known.others[j]).path != path) {
        lemma_file_text(known.others, path, k);
    }
}

proof fn lemma_file_text(files: Seq<FileView>, path: Seq<char>, k: int)
    requires
        0 <= k < files.len(),
        files[k].path == path,
        forall|j: int| 0 <= j < k ==> (#[trigger] files[j]).path != path,
    ensures
        parse::file_text(files, path) == Some(files[k].text),
    decreases k,
{
    if k > 0 {
        assert(files[0].path != path);
        let rest = files.drop_first();
        assert forall|j: int| 0 <= j < k - 1 implies (#[trigger] rest[j]).path != path by {
            assert(rest[j] == files[j + 1]);
        }
        lemma_file_text(rest, path, k - 1);
    }
}

/// An exchange is begun with the server for the file, about the document as it stands,
/// with the method and the parameters of the question, and has gathered nothing yet.
pub proof fn exchanges_are_about_the_document(
    kind: ExchangeKind,
    position: DocumentView,
    settings: SettingsView,
    config: ConfigView,
    version: Seq<char>,
    method: Seq<char>,
    parameters: JsonView,
)
    ensures
        ({
            let started = client::started(kind, position, config, version, method, parameters);
            let begun = client::begun(kind, position, settings, version, method, parameters);
            let server = config::server_for(position.path, settings, position.platform);
            &&& started.phase is New
            &&& started.plan.kind == kind
            &&& started.plan.config == config
            &&& started.plan.root == position.root
            &&& started.plan.path == position.path
            &&& started.plan.text == position.text
            &&& started.plan.platform == position.platform
            &&& started.plan.version == version
            &&& started.plan.method == method
            &&& started.plan.params == parameters
            &&& started.response is None
            &&& started.edits.len() == 0
            &&& started.published is None
            &&& begun is Some <==> server is Some
            &&& server == Some(config) ==> begun == Some(started)
        }),
{
}

/// An exchange whose server cannot be started is over; one whose server fails while it is
/// greeted or asked is given up, and the server is killed; one that says nothing while
/// the reply is awaited is ended in order.
pub proof fn failing_exchanges_are_given_up(before: ExchangeView)
    ensures
        before.phase is Starting ==> before.after(EventView::StartFailed) == (
            before.at(Phase::Done),
            ActionView::Done,
        ),
        before.phase is SendingInitialize || before.phase is SendingInitialized || before.phase is SendingDidOpen
            || before.phase is SendingRequest ==> before.after(EventView::SendFailed).1 is Kill
            && before.after(EventView::SendFailed).0.phase is Closing,
        before.phase is AwaitingInitialize ==> before.after(EventView::Silence).1 is Kill,
        before.phase is AwaitingReply ==> before.after(EventView::Silence).0.phase is SendingShutdown,
        before.phase is AwaitingShutdown ==> before.after(EventView::Silence).0.phase is SendingExit,
        before.after(EventView::Silence).0.response == before.response,
        before.after(EventView::SendFailed).0.edits == before.edits,
        before.at(Phase::Done).plan == before.plan && before.at(Phase::Done).response
            == before.response,
{
}

/// The code of a problem that is a negative number is written with its sign.
pub proof fn negative_codes_keep_their_sign(n: i64)
    requires
        n < 0,
    ensures
        parse::code_text(Some(JsonView::Number(NumberView::NegInt(n)))) == Some(
            seq!['-'] + text::decimal((-(n as int)) as nat),
        ),
        parse::code_text(Some(JsonView::Bool(true))) is None,
        parse::code_text(None) is None,
{
}

/// An answer that cannot be sent ends the exchange where the server needs it, and else is
/// left out; the end of an exchange goes on whether or not the server can be told of it;
/// and once it has ended nothing more happens.
pub proof fn exchanges_come_to_their_end(before: ExchangeView, event: EventView)
    ensures
        before.phase == Phase::Answering(true) ==> before.after(EventView::SendFailed).0.phase is SendingShutdown,
        before.phase == Phase::Answering(false) ==> before.after(EventView::SendFailed).0.phase is AwaitingReply,
        before.phase is Answering ==> before.after(EventView::Sent).0.phase is AwaitingReply,
        before.phase is SendingShutdown && (event is Sent || event is SendFailed) ==> before.after(
            event,
        ).0.phase is AwaitingShutdown && before.after(event).1 is Receive,
        before.phase is SendingExit && (event is Sent || event is SendFailed) ==> before.after(
            event,
        ).0.phase is Closing && before.after(event).1 is Finish,
        before.phase is Closing ==> before.after(EventView::Closed) == (
            before.at(Phase::Done),
            ActionView::Done,
        ),
        before.phase is Done ==> before.after(event) == (before, ActionView::Done),
        before.after(event).0.plan == before.plan,
{
}

/// A server that was started is greeted, and told that edits are taken from it where the
/// exchange takes them; what it is asked is the method and the parameters of the plan.
pub proof fn servers_are_greeted_and_asked(before: ExchangeView)
    ensures
        before.phase is New ==> before.after(EventView::Begin).1 is Start,
        before.phase is Starting ==> before.after(EventView::Started) == (
            before.at(Phase::SendingInitialize),
            ActionView::Send(
                params::initialize(
                    before.plan.root,
                    before.plan.kind is RequestTakingEdits,
                    before.plan.version,
                ),
            ),
        ),
        before.phase is SendingInitialized ==> before.after(EventView::Sent).1 == ActionView::Send(
            params::did_open(before.plan.path, before.plan.config.language_id, before.plan.text),
        ),
        before.phase is SendingDidOpen && !(before.plan.kind is Diagnostics) ==> before.after(
            EventView::Sent,
        ).1 == ActionView::Send(params::request(2, before.plan.method, before.plan.params)),
        before.phase is SendingDidOpen && before.plan.kind is Diagnostics ==> before.after(
            EventView::Sent,
        ).0.phase is AwaitingReply,
{
}

} // verus!
