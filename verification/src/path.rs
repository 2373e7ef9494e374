//! Paths: as text with slashes, and as sequences of components.

pub mod components;

use vstd::prelude::*;

pub use crate::path::components::Platform;
use crate::path::components::Separators;
use crate::text;

verus! {

/// The last position of `x`, or -1 where it does not occur.
pub open spec fn last_index<T>(items: Seq<T>, x: T) -> int
    decreases items.len(),
{
    if items.len() == 0 {
        -1
    } else if items.last() == x {
        items.len() - 1
    } else {
        last_index(items.drop_last(), x)
    }
}

/// What follows the last dot of a file name; nothing where there is no dot but
/// perhaps a first one.
pub open spec fn extension_of<T>(name: Seq<T>, dot: T) -> Option<Seq<T>> {
    let at = last_index(name, dot);
    if at <= 0 {
        None
    } else {
        Some(name.skip(at + 1))
    }
}

pub proof fn lemma_last_index<T>(items: Seq<T>, x: T)
    ensures
        -1 <= last_index(items, x) < items.len(),
        last_index(items, x) >= 0 ==> items[last_index(items, x)] == x,
        forall|i: int| last_index(items, x) < i < items.len() ==> items[i] != x,
    decreases items.len(),
{
    if items.len() > 0 && items.last() != x {
        lemma_last_index(items.drop_last(), x);
        assert forall|i: int| last_index(items, x) < i < items.len() implies items[i] != x by {
            if i < items.len() - 1 {
                assert(items[i] == items.drop_last()[i]);
            }
        }
    }
}

/// One component of a path: where it starts, a step, or a name.
#[derive(Debug, Clone, PartialEq, Eq)]
pub enum PathPart {
    Anchor(Vec<u8>),
    Current,
    Parent,
    Normal(Vec<u8>),
}

pub enum PartView {
    Anchor(Seq<u8>),
    Current,
    Parent,
    Normal(Seq<u8>),
}

impl View for PathPart {
    type V = PartView;

    open spec fn view(&self) -> PartView {
        match self {
            PathPart::Anchor(bytes) => PartView::Anchor(bytes@),
            PathPart::Current => PartView::Current,
            PathPart::Parent => PartView::Parent,
            PathPart::Normal(bytes) => PartView::Normal(bytes@),
        }
    }
}

fn copy_bytes(bytes: &Vec<u8>) -> (copied: Vec<u8>)
    ensures
        copied@ == bytes@,
{
    let mut copied: Vec<u8> = Vec::new();
    copied.extend_from_slice(bytes.as_slice());
    assert(copied@ =~= bytes@);
    copied
}

impl PathPart {
    pub fn copy(&self) -> (copied: PathPart)
        ensures
            copied@ == self@,
    {
        match self {
            PathPart::Anchor(bytes) => PathPart::Anchor(copy_bytes(bytes)),
            PathPart::Current => PathPart::Current,
            PathPart::Parent => PathPart::Parent,
            PathPart::Normal(bytes) => PathPart::Normal(copy_bytes(bytes)),
        }
    }

    pub fn same(&self, other: &PathPart) -> (same: bool)
        ensures
            same == (self@ == other@),
    {
        match (self, other) {
            (PathPart::Anchor(a), PathPart::Anchor(b)) => text::same_bytes(
                a.as_slice(),
                b.as_slice(),
            ),
            (PathPart::Current, PathPart::Current) => true,
            (PathPart::Parent, PathPart::Parent) => true,
            (PathPart::Normal(a), PathPart::Normal(b)) => text::same_bytes(
                a.as_slice(),
                b.as_slice(),
            ),
            _ => false,
        }
    }
}

/// A path, as the sequence of its components.
#[derive(Debug, Clone, PartialEq, Eq)]
pub struct FsPath {
    pub parts: Vec<PathPart>,
}

pub open spec fn parts_view(parts: Seq<PathPart>) -> Seq<PartView> {
    Seq::new(parts.len(), |i: int| parts[i]@)
}

impl View for FsPath {
    type V = Seq<PartView>;

    open spec fn view(&self) -> Seq<PartView> {
        parts_view(self.parts@)
    }
}

/// The bytes of the last component, where it is a name.
pub open spec fn last_name(path: Seq<PartView>) -> Option<Seq<u8>> {
    if path.len() == 0 {
        None
    } else {
        match path.last() {
            PartView::Normal(bytes) => Some(bytes),
            _ => None,
        }
    }
}

/// The bytes of the extension of the last component.
pub open spec fn last_extension(path: Seq<PartView>) -> Option<Seq<u8>> {
    match last_name(path) {
        Some(name) => extension_of(name, 0x2eu8),
        None => None,
    }
}

/// The text that bytes stand for, where they are UTF-8.
pub open spec fn utf8(bytes: Seq<u8>) -> Option<Seq<char>> {
    if vstd::utf8::valid_utf8(bytes) {
        Some(vstd::utf8::decode_utf8(bytes))
    } else {
        None
    }
}

impl FsPath {
    pub fn copy(&self) -> (copied: FsPath)
        ensures
            copied@ == self@,
    {
        let mut parts: Vec<PathPart> = Vec::new();
        for i in 0..self.parts.len()
            invariant
                parts@.len() == i,
                forall|j: int| 0 <= j < i ==> parts@[j]@ == self.parts@[j]@,
        {
            parts.push(self.parts[i].copy());
        }
        let copied = FsPath { parts };
        assert(copied@ =~= self@);
        copied
    }

    /// Whether this path begins with all components of `base`.
    pub fn starts_with(&self, base: &FsPath) -> (yes: bool)
        ensures
            yes == base@.is_prefix_of(self@),
    {
        if base.parts.len() > self.parts.len() {
            return false;
        }
        for i in 0..base.parts.len()
            invariant
                base.parts@.len() <= self.parts@.len(),
                forall|j: int| 0 <= j < i ==> base.parts@[j]@ == self.parts@[j]@,
        {
            if !base.parts[i].same(&self.parts[i]) {
                proof {
                    assert(base@[i as int] != self@.subrange(0, base@.len() as int)[i as int]);
                }
                return false;
            }
        }
        assert(base@ =~= self@.subrange(0, base@.len() as int));
        true
    }

    /// Whether the two paths have the same components.
    pub fn same(&self, other: &FsPath) -> (same: bool)
        ensures
            same == (self@ == other@),
    {
        if self.parts.len() != other.parts.len() {
            assert(self@.len() != other@.len());
            return false;
        }
        let same = self.starts_with(other);
        proof {
            assert(self@.subrange(0, other@.len() as int) =~= self@);
        }
        same
    }

    /// The path with one more name at its end.
    pub fn join(&self, name: Vec<u8>) -> (joined: FsPath)
        ensures
            joined@ == self@.push(PartView::Normal(name@)),
    {
        let mut joined = self.copy();
        let ghost before = joined.parts@;
        joined.parts.push(PathPart::Normal(name));
        assert(joined@ =~= self@.push(PartView::Normal(name@))) by {
            assert(parts_view(before) == self@);
            assert forall|i: int| 0 <= i < before.len() implies joined.parts@[i]@ == self@[i] by {
                assert(parts_view(before)[i] == before[i]@);
            }
        }
        joined
    }

    /// The bytes of the last component, where it is a name.
    pub fn file_name(&self) -> (name: Option<Vec<u8>>)
        ensures
            name is Some <==> last_name(self@) is Some,
            name matches Some(bytes) ==> last_name(self@) == Some(bytes@),
    {
        if self.parts.len() == 0 {
            return None;
        }
        let last = &self.parts[self.parts.len() - 1];
        proof {
            assert(self@.last() == last@);
        }
        match last {
            PathPart::Normal(bytes) => Some(copy_bytes(bytes)),
            _ => None,
        }
    }

    /// The bytes of the extension of the last component.
    pub fn extension(&self) -> (found: Option<Vec<u8>>)
        ensures
            found is Some <==> last_extension(self@) is Some,
            found matches Some(bytes) ==> last_extension(self@) == Some(bytes@),
    {
        let name = match self.file_name() {
            Some(name) => name,
            None => {
                return None;
            },
        };
        let mut i: usize = name.len();
        proof {
            assert(name@.take(i as int) =~= name@);
        }
        while i > 0
            invariant
                i <= name@.len(),
                last_index(name@, 0x2eu8) == last_index(name@.take(i as int), 0x2eu8),
                last_name(self@) == Some(name@),
            decreases i,
        {
            proof {
                assert(name@.take(i as int).drop_last() =~= name@.take(i - 1));
            }
            if name[i - 1] == 0x2e {
                if i == 1 {
                    return None;
                }
                let mut found: Vec<u8> = Vec::new();
                for j in i..name.len()
                    invariant
                        i <= j <= name@.len(),
                        found@ == name@.subrange(i as int, j as int),
                {
                    found.push(name[j]);
                }
                proof {
                    assert(found@ =~= name@.skip(i as int));
                }
                return Some(found);
            }
            i = i - 1;
        }
        None
    }
}

/// What stands between the components in the text of a path.
pub open spec fn separators_of(parts: Seq<PartView>, platform: Platform) -> Separators {
    match platform {
        Platform::Unix => Separators::Slash,
        Platform::Windows => if parts.len() > 0 && (parts[0] matches PartView::Anchor(bytes)
            && bytes.len() >= 4 && bytes.take(4) == components::verbatim_start()) {
            Separators::Backslash
        } else {
            Separators::Both
        },
    }
}

pub open spec fn is_separator(c: char, separators: Separators) -> bool {
    match separators {
        Separators::Slash => c == '/',
        Separators::Both => c == '/' || c == '\\',
        Separators::Backslash => c == '\\',
    }
}

/// Where the piece of a path's text that begins at `at` ends: at the next
/// separator.
pub open spec fn piece_end(text: Seq<char>, at: int, separators: Separators) -> int
    decreases text.len() - at,
{
    if at >= text.len() || is_separator(text[at], separators) {
        at
    } else {
        piece_end(text, at + 1, separators)
    }
}

/// Where the piece of a path's text that ends at `end` begins: behind the separator
/// before it.
pub open spec fn piece_start(text: Seq<char>, end: int, separators: Separators) -> int
    decreases end,
{
    if end <= 0 || is_separator(text[end - 1], separators) {
        end
    } else {
        piece_start(text, end - 1, separators)
    }
}

/// Whether a piece is a component: an empty one is none, and neither is a single
/// dot but behind a verbatim prefix.
pub open spec fn is_component(
    text: Seq<char>,
    start: int,
    end: int,
    separators: Separators,
) -> bool {
    start < end && (separators == Separators::Backslash || !(end == start + 1 && text[start]
        == '.'))
}

/// Where the component behind the next `n` ones begins; the end of the text where
/// there is none.
pub open spec fn component_start(text: Seq<char>, at: int, n: nat, separators: Separators) -> int
    decreases text.len() + 1 - at,
    via component_start_decreases
{
    if at >= text.len() {
        text.len() as int
    } else {
        let end = piece_end(text, at, separators);
        if !is_component(text, at, end, separators) {
            component_start(text, end + 1, n, separators)
        } else if n > 0 {
            component_start(text, end + 1, (n - 1) as nat, separators)
        } else {
            at
        }
    }
}

#[via_fn]
proof fn component_start_decreases(text: Seq<char>, at: int, n: nat, separators: Separators) {
    lemma_piece_end(text, at, separators);
}

proof fn lemma_piece_end(text: Seq<char>, at: int, separators: Separators)
    ensures
        at <= piece_end(text, at, separators),
        at <= text.len() ==> piece_end(text, at, separators) <= text.len(),
    decreases text.len() - at,
{
    if at < text.len() && !is_separator(text[at], separators) {
        lemma_piece_end(text, at + 1, separators);
    }
}

proof fn lemma_piece_start(text: Seq<char>, end: int, separators: Separators)
    ensures
        piece_start(text, end, separators) <= end,
        0 <= end ==> 0 <= piece_start(text, end, separators),
    decreases end,
{
    if end > 0 && !is_separator(text[end - 1], separators) {
        lemma_piece_start(text, end - 1, separators);
    }
}

/// Where the last component that ends at `end` or before ends, in the text from
/// `from` on.
pub open spec fn last_component_end(
    text: Seq<char>,
    from: int,
    end: int,
    separators: Separators,
) -> int
    decreases end + 1,
    via last_component_end_decreases
{
    if end <= from || end <= 0 {
        end
    } else {
        let start = piece_start(text, end, separators);
        if is_component(text, start, end, separators) || from == 0 && start <= 0 {
            end
        } else if start <= from {
            from
        } else {
            last_component_end(text, from, start - 1, separators)
        }
    }
}

#[via_fn]
proof fn last_component_end_decreases(
    text: Seq<char>,
    from: int,
    end: int,
    separators: Separators,
) {
    lemma_piece_start(text, end, separators);
}

/// How many anchors a path begins with.
pub open spec fn anchors(parts: Seq<PartView>) -> nat
    decreases parts.len(),
{
    if parts.len() > 0 && parts[0] is Anchor {
        1 + anchors(parts.drop_first())
    } else {
        0
    }
}

/// How many characters they are.
pub open spec fn anchors_len(parts: Seq<PartView>) -> nat
    decreases parts.len(),
{
    if parts.len() > 0 {
        match parts[0] {
            PartView::Anchor(bytes) => text::lossy(bytes).len() + anchors_len(parts.drop_first()),
            _ => 0,
        }
    } else {
        0
    }
}

/// The part of the text of a path that stands behind its first `n` components: from
/// where the next one begins to where the last one ends, as it is written.
pub open spec fn text_behind(
    text: Seq<char>,
    parts: Seq<PartView>,
    n: nat,
    platform: Platform,
) -> Seq<char> {
    let separators = separators_of(parts, platform);
    let lead = if anchors_len(parts) < text.len() {
        anchors_len(parts) as int
    } else {
        text.len() as int
    };
    if n == 0 {
        text.subrange(0, last_component_end(text, lead, text.len() as int, separators))
    } else {
        let start = if parts.len() > 0 && parts[0] is Current {
            component_start(
                text,
                piece_end(text, 0, separators) + 1,
                (n - 1) as nat,
                separators,
            )
        } else {
            let more = if n > anchors(parts) {
                (n - anchors(parts)) as nat
            } else {
                0
            };
            component_start(text, lead, more, separators)
        };
        text.subrange(
            start,
            last_component_end(text, start, text.len() as int, separators),
        )
    }
}

fn separates(c: char, separators: Separators) -> (yes: bool)
    ensures
        yes == is_separator(c, separators),
{
    match separators {
        Separators::Slash => c == '/',
        Separators::Both => c == '/' || c == '\\',
        Separators::Backslash => c == '\\',
    }
}

fn end_of_piece(chars: &Vec<char>, at: usize, separators: Separators) -> (end: usize)
    requires
        at <= chars@.len(),
    ensures
        end == piece_end(chars@, at as int, separators),
        at <= end <= chars@.len(),
{
    let mut end: usize = at;
    while end < chars.len() && !separates(chars[end], separators)
        invariant
            at <= end <= chars@.len(),
            piece_end(chars@, at as int, separators) == piece_end(
                chars@,
                end as int,
                separators,
            ),
        decreases chars@.len() - end,
    {
        end = end + 1;
    }
    end
}

fn start_of_piece(chars: &Vec<char>, end: usize, separators: Separators) -> (start: usize)
    requires
        end <= chars@.len(),
    ensures
        start == piece_start(chars@, end as int, separators),
        start <= end,
{
    let mut start: usize = end;
    while start > 0 && !separates(chars[start - 1], separators)
        invariant
            start <= end <= chars@.len(),
            piece_start(chars@, end as int, separators) == piece_start(
                chars@,
                start as int,
                separators,
            ),
        decreases start,
    {
        start = start - 1;
    }
    start
}

fn names_something(chars: &Vec<char>, start: usize, end: usize, separators: Separators) -> (yes:
    bool)
    requires
        start <= end <= chars@.len(),
    ensures
        yes == is_component(chars@, start as int, end as int, separators),
{
    start < end && (separators == Separators::Backslash || !(end - start == 1 && chars[start]
        == '.'))
}

fn start_of_component(chars: &Vec<char>, from: usize, skip: usize, separators: Separators) -> (start:
    usize)
    requires
        from <= chars@.len(),
    ensures
        start == component_start(chars@, from as int, skip as nat, separators),
        start <= chars@.len(),
{
    let mut at: usize = from;
    let mut left: usize = skip;
    while at < chars.len()
        invariant
            at <= chars@.len(),
            component_start(chars@, from as int, skip as nat, separators) == component_start(
                chars@,
                at as int,
                left as nat,
                separators,
            ),
        decreases chars@.len() - at,
    {
        let end = end_of_piece(chars, at, separators);
        if names_something(chars, at, end, separators) {
            if left == 0 {
                return at;
            }
            left = left - 1;
        }
        if end == chars.len() {
            proof {
                assert(component_start(chars@, end + 1, left as nat, separators)
                    == chars@.len());
            }
            return end;
        }
        at = end + 1;
    }
    at
}

fn end_of_components(chars: &Vec<char>, from: usize, separators: Separators) -> (end: usize)
    requires
        from <= chars@.len(),
    ensures
        end == last_component_end(chars@, from as int, chars@.len() as int, separators),
        from <= end <= chars@.len(),
{
    let mut end: usize = chars.len();
    while end > from
        invariant
            from <= end <= chars@.len(),
            last_component_end(chars@, from as int, chars@.len() as int, separators)
                == last_component_end(chars@, from as int, end as int, separators),
        decreases end,
    {
        let start = start_of_piece(chars, end, separators);
        if names_something(chars, start, end, separators) || (from == 0 && start == 0) {
            return end;
        }
        if start <= from {
            return from;
        }
        end = start - 1;
    }
    end
}

impl FsPath {
    /// What stands behind the first components of a path in its text, as it is
    /// written, with slashes in place of separators.
    pub fn text_after(&self, text: &str, skip: usize, platform: Platform) -> (out: String)
        ensures
            out@ == crate::lsp::uri::with_slashes(
                text_behind(text@, self@, skip as nat, platform),
            ),
    {
        let separators = self.separators(platform);
        let chars = text::chars_of(text);
        let mut lead: usize = 0;
        let mut count: usize = 0;
        proof {
            assert(self@.skip(0) =~= self@);
        }
        while count < self.parts.len()
            invariant
                count <= self.parts@.len(),
                lead <= chars@.len(),
                anchors(self@) == count + anchors(self@.skip(count as int)),
                lead < chars@.len() ==> anchors_len(self@) == lead + anchors_len(
                    self@.skip(count as int),
                ),
                lead == chars@.len() ==> anchors_len(self@) >= lead,
            ensures
                count <= self.parts@.len(),
                count == anchors(self@),
                lead == if anchors_len(self@) < chars@.len() {
                    anchors_len(self@) as int
                } else {
                    chars@.len() as int
                },
            decreases self.parts@.len() - count,
        {
            let ghost rest = self@.skip(count as int);
            proof {
                assert(rest[0] == self.parts@[count as int]@);
                assert(rest.drop_first() =~= self@.skip(count + 1));
            }
            match &self.parts[count] {
                PathPart::Anchor(bytes) => {
                    let own = text::lossy_text(bytes.as_slice());
                    let len = text::count(&own);
                    if len < chars.len() - lead {
                        lead = lead + len;
                    } else {
                        lead = chars.len();
                    }
                    count = count + 1;
                },
                _ => {
                    break;
                },
            }
        }
        let start: usize = if skip == 0 {
            0
        } else if self.begins_here() {
            let end = end_of_piece(&chars, 0, separators);
            if end == chars.len() {
                end
            } else {
                start_of_component(&chars, end + 1, skip - 1, separators)
            }
        } else {
            let more: usize = if skip > count {
                skip - count
            } else {
                0
            };
            start_of_component(&chars, lead, more, separators)
        };
        let end = end_of_components(
            &chars,
            if skip == 0 {
                lead
            } else {
                start
            },
            separators,
        );
        let rest = text::slice_of(&chars, start, end);
        crate::lsp::uri::slashed(&rest)
    }

    fn separators(&self, platform: Platform) -> (separators: Separators)
        ensures
            separators == separators_of(self@, platform),
    {
        match platform {
            Platform::Unix => Separators::Slash,
            Platform::Windows => {
                if self.parts.len() > 0 {
                    if let PathPart::Anchor(bytes) = &self.parts[0] {
                        if components::starts_verbatim(bytes.as_slice()) {
                            return Separators::Backslash;
                        }
                    }
                }
                Separators::Both
            },
        }
    }

    /// Whether the first component is a single dot.
    fn begins_here(&self) -> (yes: bool)
        ensures
            yes == (self@.len() > 0 && self@[0] is Current),
    {
        if self.parts.len() == 0 {
            return false;
        }
        match &self.parts[0] {
            PathPart::Current => true,
            _ => false,
        }
    }
}

/// The extension of a name stands behind its last dot; a name without a dot, and one
/// that begins with its only dot, has none.
pub proof fn extensions_stand_behind_the_last_dot<T>(stem: Seq<T>, dot: T, extension: Seq<T>)
    requires
        forall|i: int| 0 <= i < extension.len() ==> extension[i] != dot,
    ensures
        stem.len() > 0 ==> extension_of(stem.push(dot) + extension, dot) == Some(extension),
        extension_of(seq![dot] + extension, dot) is None,
        extension_of(extension, dot) is None,
{
    let whole = stem.push(dot) + extension;
    lemma_last_index(whole, dot);
    let at = last_index(whole, dot);
    assert(whole[stem.len() as int] == dot);
    if at > stem.len() {
        assert(whole[at] == extension[at - stem.len() - 1]);
    }
    assert(at == stem.len());
    assert(whole.skip(at + 1) =~= extension);
    let hidden = seq![dot] + extension;
    lemma_last_index(hidden, dot);
    let first = last_index(hidden, dot);
    assert(hidden[0] == dot);
    if first > 0 {
        assert(hidden[first] == extension[first - 1]);
    }
    lemma_last_index(extension, dot);
}

} // verus!
