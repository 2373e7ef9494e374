//! JSON values as the language server protocol exchanges them.

use vstd::prelude::*;

use crate::text;

verus! {

/// A JSON number. A whole number is kept as an integer where it fits; any
/// other number is kept in the notation it is printed with.
#[derive(Debug, PartialEq, Eq)]
pub enum JsonNumber {
    PosInt(u64),
    NegInt(i64),
    Float(String),
}

/// A JSON value. The entries of an object stand in the order in which they are
/// walked; the value of a key is that of its first entry.
#[derive(Debug, PartialEq, Eq)]
pub enum Json {
    Null,
    Bool(bool),
    Number(JsonNumber),
    Str(String),
    Array(Vec<Json>),
    Object(Vec<(String, Json)>),
}

#[verifier::ext_equal]
pub enum NumberView {
    PosInt(u64),
    NegInt(i64),
    Float(Seq<char>),
}

/// The mathematical value of a `Json`.
#[verifier::ext_equal]
pub enum JsonView {
    Null,
    Bool(bool),
    Number(NumberView),
    Str(Seq<char>),
    Array(Seq<JsonView>),
    Object(Seq<(Seq<char>, JsonView)>),
}

impl View for JsonNumber {
    type V = NumberView;

    open spec fn view(&self) -> NumberView {
        match self {
            JsonNumber::PosInt(n) => NumberView::PosInt(*n),
            JsonNumber::NegInt(n) => NumberView::NegInt(*n),
            JsonNumber::Float(text) => NumberView::Float(text@),
        }
    }
}

impl Json {
    pub open spec fn view(&self) -> JsonView
        decreases self,
    {
        match self {
            Json::Null => JsonView::Null,
            Json::Bool(b) => JsonView::Bool(*b),
            Json::Number(n) => JsonView::Number(n@),
            Json::Str(s) => JsonView::Str(s@),
            Json::Array(items) => JsonView::Array(
                Seq::new(
                    items@.len(),
                    |i: int|
                        if 0 <= i < items@.len() {
                            items@[i].view()
                        } else {
                            arbitrary()
                        },
                ),
            ),
            Json::Object(entries) => JsonView::Object(
                Seq::new(
                    entries@.len(),
                    |i: int|
                        if 0 <= i < entries@.len() {
                            (entries@[i].0@, entries@[i].1.view())
                        } else {
                            arbitrary()
                        },
                ),
            ),
        }
    }
}

/// The values of a list of JSON values.
pub open spec fn items_view(items: Seq<Json>) -> Seq<JsonView> {
    Seq::new(items.len(), |i: int| items[i]@)
}

/// The values of the entries of an object.
pub open spec fn entries_view(entries: Seq<(String, Json)>) -> Seq<(Seq<char>, JsonView)> {
    Seq::new(entries.len(), |i: int| (entries[i].0@, entries[i].1@))
}

/// What an array and an object stand for, in terms of their parts.
pub broadcast proof fn lemma_array_view(items: Vec<Json>)
    ensures
        (#[trigger] Json::Array(items).view()) == JsonView::Array(items_view(items@)),
{
    let v = Json::Array(items)@;
    assert forall|i: int| 0 <= i < items@.len() implies v->Array_0[i] == items_view(items@)[i] by {
        assert(v->Array_0[i] == items@[i].view());
    }
    assert(v->Array_0 =~= items_view(items@));
}

pub broadcast proof fn lemma_object_view(entries: Vec<(String, Json)>)
    ensures
        (#[trigger] Json::Object(entries).view()) == JsonView::Object(entries_view(entries@)),
{
    let v = Json::Object(entries)@;
    assert(v->Object_0 =~= entries_view(entries@));
}

pub broadcast group group_json_views {
    lemma_array_view,
    lemma_object_view,
}

impl JsonView {
    /// The value of `key`, where the value is an object that has it.
    pub open spec fn get(self, key: Seq<char>) -> Option<JsonView> {
        match self {
            JsonView::Object(entries) => lookup(entries, key),
            _ => None,
        }
    }

    pub open spec fn as_str(self) -> Option<Seq<char>> {
        match self {
            JsonView::Str(s) => Some(s),
            _ => None,
        }
    }

    pub open spec fn as_bool(self) -> Option<bool> {
        match self {
            JsonView::Bool(b) => Some(b),
            _ => None,
        }
    }

    pub open spec fn as_u64(self) -> Option<u64> {
        match self {
            JsonView::Number(NumberView::PosInt(n)) => Some(n),
            _ => None,
        }
    }

    /// The number as a signed integer, where it is one of 64 bits.
    pub open spec fn as_i64(self) -> Option<i64> {
        match self {
            JsonView::Number(NumberView::PosInt(n)) => if n <= i64::MAX {
                Some(n as i64)
            } else {
                None
            },
            JsonView::Number(NumberView::NegInt(n)) => Some(n),
            _ => None,
        }
    }

    pub open spec fn as_array(self) -> Option<Seq<JsonView>> {
        match self {
            JsonView::Array(items) => Some(items),
            _ => None,
        }
    }
}

/// The position of the first entry with this key, or the number of entries.
pub open spec fn key_index(entries: Seq<(Seq<char>, JsonView)>, key: Seq<char>) -> nat
    decreases entries.len(),
{
    if entries.len() == 0 || entries[0].0 == key {
        0
    } else {
        1 + key_index(entries.drop_first(), key)
    }
}

/// The value of the first entry with this key.
pub open spec fn lookup(entries: Seq<(Seq<char>, JsonView)>, key: Seq<char>) -> Option<JsonView> {
    let i = key_index(entries, key) as int;
    if i < entries.len() {
        Some(entries[i].1)
    } else {
        None
    }
}

/// The value behind an optional reference.
pub open spec fn maybe(value: Option<&Json>) -> Option<JsonView> {
    match value {
        Some(v) => Some(v@),
        None => None,
    }
}

/// Finds the first entry with a key.
pub fn find_key(entries: &Vec<(String, Json)>, key: &str) -> (found: Option<usize>)
    ensures
        found matches Some(i) ==> i < entries@.len() && i == key_index(
            entries_view(entries@),
            key@,
        ),
        found is None ==> key_index(entries_view(entries@), key@) == entries@.len(),
{
    let mut i: usize = 0;
    proof {
        assert(entries_view(entries@).skip(0) =~= entries_view(entries@));
    }
    while i < entries.len()
        invariant
            i <= entries@.len(),
            key_index(entries_view(entries@), key@) == i + key_index(
                entries_view(entries@).skip(i as int),
                key@,
            ),
        decreases entries@.len() - i,
    {
        let ghost rest = entries_view(entries@).skip(i as int);
        assert(rest[0] == (entries@[i as int].0@, entries@[i as int].1@));
        assert(rest.drop_first() =~= entries_view(entries@).skip(i + 1));
        if text::same(&entries[i].0, key) {
            return Some(i);
        }
        i = i + 1;
    }
    None
}

impl Json {
    pub fn is_null(&self) -> (yes: bool)
        ensures
            yes == (self@ is Null),
    {
        matches!(self, Json::Null)
    }

    pub fn get(&self, key: &str) -> (value: Option<&Json>)
        ensures
            maybe(value) == self@.get(key@),
    {
        broadcast use group_json_views;

        match self {
            Json::Object(entries) => match find_key(entries, key) {
                Some(i) => Some(&entries[i].1),
                None => None,
            },
            _ => None,
        }
    }

    pub fn as_str(&self) -> (value: Option<&String>)
        ensures
            value is Some <==> self@.as_str() is Some,
            value matches Some(s) ==> Some(s@) == self@.as_str(),
    {
        match self {
            Json::Str(s) => Some(s),
            _ => None,
        }
    }

    pub fn as_bool(&self) -> (value: Option<bool>)
        ensures
            value == self@.as_bool(),
    {
        match self {
            Json::Bool(b) => Some(*b),
            _ => None,
        }
    }

    pub fn as_u64(&self) -> (value: Option<u64>)
        ensures
            value == self@.as_u64(),
    {
        match self {
            Json::Number(JsonNumber::PosInt(n)) => Some(*n),
            _ => None,
        }
    }

    pub fn as_i64(&self) -> (value: Option<i64>)
        ensures
            value == self@.as_i64(),
    {
        match self {
            Json::Number(JsonNumber::PosInt(n)) => if *n <= 0x7fff_ffff_ffff_ffff {
                Some(*n as i64)
            } else {
                None
            },
            Json::Number(JsonNumber::NegInt(n)) => Some(*n),
            _ => None,
        }
    }

    pub fn as_array(&self) -> (value: Option<&Vec<Json>>)
        ensures
            value is Some <==> self@.as_array() is Some,
            value matches Some(items) ==> self@.as_array() == Some(items_view(items@)),
    {
        broadcast use group_json_views;

        match self {
            Json::Array(items) => Some(items),
            _ => None,
        }
    }

    /// A value equal to this one.
    pub fn copy(&self) -> (copied: Json)
        ensures
            copied@ == self@,
        decreases self,
    {
        broadcast use group_json_views;

        match self {
            Json::Null => Json::Null,
            Json::Bool(b) => Json::Bool(*b),
            Json::Number(JsonNumber::PosInt(n)) => Json::Number(JsonNumber::PosInt(*n)),
            Json::Number(JsonNumber::NegInt(n)) => Json::Number(JsonNumber::NegInt(*n)),
            Json::Number(JsonNumber::Float(t)) => Json::Number(JsonNumber::Float(t.clone())),
            Json::Str(s) => Json::Str(s.clone()),
            Json::Array(items) => {
                let mut copied: Vec<Json> = Vec::new();
                for i in 0..items.len()
                    invariant
                        self matches Json::Array(v) && v == items,
                        copied@.len() == i,
                        forall|j: int| 0 <= j < i ==> copied@[j]@ == items@[j]@,
                {
                    copied.push(items[i].copy());
                }
                assert(items_view(copied@) =~= items_view(items@));
                Json::Array(copied)
            },
            Json::Object(entries) => {
                let mut copied: Vec<(String, Json)> = Vec::new();
                for i in 0..entries.len()
                    invariant
                        self matches Json::Object(v) && v == entries,
                        copied@.len() == i,
                        forall|j: int|
                            0 <= j < i ==> copied@[j].0@ == entries@[j].0@ && copied@[j].1@
                                == entries@[j].1@,
                {
                    copied.push((entries[i].0.clone(), entries[i].1.copy()));
                }
                assert(entries_view(copied@) =~= entries_view(entries@));
                Json::Object(copied)
            },
        }
    }
}

/// The member `key` of a value that may be missing.
pub open spec fn member(value: Option<JsonView>, key: Seq<char>) -> Option<JsonView> {
    match value {
        Some(v) => v.get(key),
        None => None,
    }
}

/// The text of a value that may be missing.
pub open spec fn text_in(value: Option<JsonView>) -> Option<Seq<char>> {
    match value {
        Some(v) => v.as_str(),
        None => None,
    }
}

/// The unsigned number of a value that may be missing.
pub open spec fn number_in(value: Option<JsonView>) -> Option<u64> {
    match value {
        Some(v) => v.as_u64(),
        None => None,
    }
}

/// The items of an array that may be missing.
pub open spec fn array_in(value: Option<JsonView>) -> Option<Seq<JsonView>> {
    match value {
        Some(v) => v.as_array(),
        None => None,
    }
}

/// The first of two values that is there.
pub open spec fn first_of<T>(a: Option<T>, b: Option<T>) -> Option<T> {
    match a {
        Some(v) => Some(v),
        None => b,
    }
}

/// What `pick` gives for the items for which it gives something, in order.
pub open spec fn picked<T>(items: Seq<JsonView>, pick: spec_fn(JsonView) -> Option<T>) -> Seq<T>
    decreases items.len(),
{
    if items.len() == 0 {
        Seq::empty()
    } else {
        let before = picked(items.drop_last(), pick);
        match pick(items.last()) {
            Some(t) => before.push(t),
            None => before,
        }
    }
}

pub fn member_of<'a>(value: Option<&'a Json>, key: &str) -> (found: Option<&'a Json>)
    ensures
        maybe(found) == member(maybe(value), key@),
{
    match value {
        Some(v) => v.get(key),
        None => None,
    }
}

/// A copy of the text of a value that may be missing.
pub fn text_of(value: Option<&Json>) -> (found: Option<String>)
    ensures
        text::maybe(found) == text_in(maybe(value)),
{
    match value {
        Some(v) => match v.as_str() {
            Some(s) => Some(s.clone()),
            None => None,
        },
        None => None,
    }
}

pub fn number_of(value: Option<&Json>) -> (found: Option<u64>)
    ensures
        found == number_in(maybe(value)),
{
    match value {
        Some(v) => v.as_u64(),
        None => None,
    }
}

pub fn array_of<'a>(value: Option<&'a Json>) -> (found: Option<&'a Vec<Json>>)
    ensures
        found is Some <==> array_in(maybe(value)) is Some,
        found matches Some(items) ==> array_in(maybe(value)) == Some(items_view(items@)),
{
    match value {
        Some(v) => v.as_array(),
        None => None,
    }
}

pub fn first_value<'a>(a: Option<&'a Json>, b: Option<&'a Json>) -> (found: Option<&'a Json>)
    ensures
        maybe(found) == first_of(maybe(a), maybe(b)),
{
    match a {
        Some(v) => Some(v),
        None => b,
    }
}

/// Whether a value that may be missing is the text `expected`.
pub fn is_text(value: Option<&Json>, expected: &str) -> (yes: bool)
    ensures
        yes == (text_in(maybe(value)) == Some(expected@)),
{
    match value {
        Some(v) => match v.as_str() {
            Some(s) => text::same(s, expected),
            None => false,
        },
        None => false,
    }
}

/// Copies of all values of a list, in order.
pub fn copy_all(items: &Vec<Json>) -> (copied: Vec<Json>)
    ensures
        items_view(copied@) == items_view(items@),
{
    let mut copied: Vec<Json> = Vec::new();
    for i in 0..items.len()
        invariant
            copied@.len() == i,
            forall|j: int| 0 <= j < i ==> copied@[j]@ == items@[j]@,
    {
        copied.push(items[i].copy());
    }
    assert(items_view(copied@) =~= items_view(items@));
    copied
}

/// The members of an empty object.
pub open spec fn no_members() -> Seq<(Seq<char>, JsonView)> {
    Seq::empty()
}

/// A JSON string.
pub open spec fn str_view(text: Seq<char>) -> JsonView {
    JsonView::Str(text)
}

/// A whole JSON number.
pub open spec fn number_view(n: u64) -> JsonView {
    JsonView::Number(NumberView::PosInt(n))
}

pub fn string(text: &str) -> (value: Json)
    ensures
        value@ == str_view(text@),
{
    Json::Str(text.to_owned())
}

pub fn number(n: u64) -> (value: Json)
    ensures
        value@ == number_view(n),
{
    Json::Number(JsonNumber::PosInt(n))
}

/// The members of an object under construction.
pub struct Members {
    pub entries: Vec<(String, Json)>,
}

impl Members {
    pub open spec fn view(&self) -> Seq<(Seq<char>, JsonView)> {
        entries_view(self.entries@)
    }

    pub fn none() -> (members: Members)
        ensures
            members@ == Seq::<(Seq<char>, JsonView)>::empty(),
    {
        let members = Members { entries: Vec::new() };
        assert(members@ =~= Seq::<(Seq<char>, JsonView)>::empty());
        members
    }

    /// The members followed by one more.
    pub fn with(self, key: &str, value: Json) -> (members: Members)
        ensures
            members@ == self@.push((key@, value@)),
    {
        let mut entries = self.entries;
        entries.push((key.to_owned(), value));
        let members = Members { entries };
        assert(members@ =~= self@.push((key@, value@)));
        members
    }

    pub fn object(self) -> (value: Json)
        ensures
            value@ == JsonView::Object(self@),
    {
        broadcast use group_json_views;

        Json::Object(self.entries)
    }
}

/// A value is read as what it is, and as nothing else; a number is a signed one where it
/// fits.
pub proof fn values_are_read_as_what_they_are(
    text: Seq<char>,
    n: u64,
    negative: i64,
    flag: bool,
    items: Seq<JsonView>,
)
    ensures
        JsonView::Str(text).as_str() == Some(text),
        JsonView::Bool(flag).as_bool() == Some(flag),
        JsonView::Array(items).as_array() == Some(items),
        JsonView::Number(NumberView::PosInt(n)).as_u64() == Some(n),
        n <= 0x7fff_ffff_ffff_ffff ==> JsonView::Number(NumberView::PosInt(n)).as_i64() is Some
            && JsonView::Number(NumberView::PosInt(n)).as_i64()->0 == n,
        n > 0x7fff_ffff_ffff_ffff ==> JsonView::Number(NumberView::PosInt(n)).as_i64() is None,
        JsonView::Number(NumberView::NegInt(negative)).as_i64() == Some(negative),
        JsonView::Number(NumberView::NegInt(negative)).as_u64() is None,
        JsonView::Str(text).as_u64() is None && JsonView::Str(text).as_bool() is None,
        JsonView::Bool(flag).as_str() is None && JsonView::Null.as_str() is None,
        JsonView::Null.as_array() is None && JsonView::Str(text).as_array() is None,
        JsonView::Array(items).get(text) is None && JsonView::Null.get(text) is None,
{
}

} // verus!
