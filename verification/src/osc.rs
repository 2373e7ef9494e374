//! Operating system commands in the output of a shell: the control sequences
//! that report its directory, set its title, and set the clipboard.

use vstd::prelude::*;

use crate::clipboard;
use crate::lsp::uri;
use crate::path;
use crate::text;

verus! {

broadcast use vstd::utf8::group_utf8_lib;

/// The longest payload that is read.
pub const MAX_OSC_PAYLOAD_BYTES: usize = 4096;

#[derive(Debug, Clone, Copy, PartialEq, Eq, Structural)]
pub enum OscState {
    Ground,
    Esc,
    Osc,
    OscEsc,
}

/// Reads control sequences out of a stream of bytes.
#[derive(Debug, PartialEq, Eq)]
pub struct OscTracker {
    pub state: OscState,
    pub buffer: Vec<u8>,
    pub cwd_candidates: Vec<String>,
    pub title_update: Option<String>,
    pub clipboard_update: Option<String>,
}

#[verifier::ext_equal]
pub struct OscView {
    pub state: OscState,
    pub buffer: Seq<u8>,
    pub candidates: Seq<Seq<char>>,
    pub title: Option<Seq<char>>,
    pub clipboard: Option<Seq<char>>,
}

impl View for OscTracker {
    type V = OscView;

    open spec fn view(&self) -> OscView {
        OscView {
            state: self.state,
            buffer: self.buffer@,
            candidates: text::texts(self.cwd_candidates@),
            title: text::maybe(self.title_update),
            clipboard: text::maybe(self.clipboard_update),
        }
    }
}

/// The directory that the payload of a control sequence reports: the path of a
/// file URI on any host.
pub open spec fn reported_directory(payload: Seq<char>) -> Option<Seq<char>> {
    match text::after_prefix(payload, "7;"@) {
        None => None,
        Some(rest) => match text::after_prefix(rest, "file://"@) {
            None => None,
            Some(url) => {
                let slash = text::until(url, '/');
                if slash >= url.len() {
                    None
                } else {
                    uri::decoded(url.skip(slash as int))
                }
            },
        },
    }
}

/// The text without control characters.
pub open spec fn printable(text: Seq<char>) -> Seq<char>
    decreases text.len(),
{
    if text.len() == 0 {
        Seq::empty()
    } else if text::is_control(text.last()) {
        printable(text.drop_last())
    } else {
        printable(text.drop_last()).push(text.last())
    }
}

/// A title as it is shown: its first eighty printable characters, trimmed.
pub open spec fn sanitized_title(title: Seq<char>) -> Seq<char> {
    let shown = printable(title);
    text::trimmed(
        shown.take(
            if shown.len() < 80 {
                shown.len() as int
            } else {
                80
            },
        ),
    )
}

/// The title that the payload of a control sequence sets.
pub open spec fn reported_title(payload: Seq<char>) -> Option<Seq<char>> {
    let title = match text::after_prefix(payload, "0;"@) {
        Some(title) => Some(title),
        None => text::after_prefix(payload, "2;"@),
    };
    match title {
        Some(title) => if sanitized_title(title).len() == 0 {
            None
        } else {
            Some(sanitized_title(title))
        },
        None => None,
    }
}

impl OscView {
    pub open spec fn start() -> OscView {
        OscView {
            state: OscState::Ground,
            buffer: Seq::empty(),
            candidates: Seq::empty(),
            title: None,
            clipboard: None,
        }
    }

    /// What a payload says takes effect.
    pub open spec fn told(self, payload: Seq<char>) -> OscView {
        match reported_directory(payload) {
            Some(directory) => OscView { candidates: self.candidates.push(directory), ..self },
            None => match reported_title(payload) {
                Some(title) => OscView { title: Some(title), ..self },
                None => match clipboard::clipboard_text(payload) {
                    Some(text) => OscView { clipboard: Some(text), ..self },
                    None => self,
                },
            },
        }
    }

    /// The gathered payload takes effect, where it is text.
    pub open spec fn finished(self) -> OscView {
        let next = match path::utf8(self.buffer) {
            Some(payload) => self.told(payload),
            None => self,
        };
        OscView { buffer: Seq::empty(), state: OscState::Ground, ..next }
    }

    /// One more byte of payload; a payload that is too long is dropped.
    pub open spec fn pushed(self, byte: u8) -> OscView {
        if self.buffer.len() < MAX_OSC_PAYLOAD_BYTES {
            OscView { buffer: self.buffer.push(byte), ..self }
        } else {
            OscView { buffer: Seq::empty(), state: OscState::Ground, ..self }
        }
    }

    pub open spec fn after_byte(self, byte: u8) -> OscView {
        match self.state {
            OscState::Ground => if byte == 0x1b {
                OscView { state: OscState::Esc, ..self }
            } else {
                self
            },
            OscState::Esc => if byte == 0x5d {
                OscView { state: OscState::Osc, buffer: Seq::empty(), ..self }
            } else if byte == 0x1b {
                self
            } else {
                OscView { state: OscState::Ground, ..self }
            },
            OscState::Osc => if byte == 0x07 {
                self.finished()
            } else if byte == 0x1b {
                OscView { state: OscState::OscEsc, ..self }
            } else {
                self.pushed(byte)
            },
            OscState::OscEsc => if byte == 0x5c {
                self.finished()
            } else if byte == 0x1b {
                OscView { state: OscState::OscEsc, ..self.pushed(0x1b) }
            } else {
                OscView { state: OscState::Osc, ..self.pushed(0x1b).pushed(byte) }
            },
        }
    }

    pub open spec fn after(self, bytes: Seq<u8>) -> OscView
        decreases bytes.len(),
    {
        if bytes.len() == 0 {
            self
        } else {
            self.after(bytes.drop_last()).after_byte(bytes.last())
        }
    }

    /// The last of the reported paths that turned out to be a directory.
    pub open spec fn directory(self, is_directory: Seq<bool>) -> Option<Seq<char>>
        decreases is_directory.len(),
    {
        if is_directory.len() == 0 {
            None
        } else if is_directory.last() && is_directory.len() <= self.candidates.len() {
            Some(self.candidates[is_directory.len() - 1])
        } else {
            self.directory(is_directory.drop_last())
        }
    }
}

/// The directory that the payload of a control sequence reports.
pub fn osc7_path(payload: &str) -> (found: Option<String>)
    ensures
        text::maybe(found) == reported_directory(payload@),
{
    let url = match text::strip_prefix(payload, "7;") {
        Some(rest) => match text::strip_prefix(&rest, "file://") {
            Some(url) => url,
            None => {
                return None;
            },
        },
        None => {
            return None;
        },
    };
    let chars = text::chars_of(&url);
    let slash = text::position_of(&chars, '/', 0);
    proof {
        assert(chars@.skip(0) =~= url@);
    }
    if slash >= chars.len() {
        return None;
    }
    let tail = text::slice_of(&chars, slash, chars.len());
    proof {
        assert(tail@ =~= url@.skip(slash as int));
    }
    uri::percent_decode(&tail)
}

/// A title as it is shown.
pub fn sanitize_terminal_title(title: &str) -> (shown: String)
    ensures
        shown@ == sanitized_title(title@),
{
    let chars = text::chars_of(title);
    let mut kept: Vec<char> = Vec::new();
    for i in 0..chars.len()
        invariant
            chars@ == title@,
            kept@ == printable(title@.take(i as int)),
    {
        proof {
            assert(title@.take(i + 1).drop_last() =~= title@.take(i as int));
        }
        if !text::control(chars[i]) {
            kept.push(chars[i]);
        }
    }
    proof {
        assert(title@.take(title@.len() as int) =~= title@);
    }
    let end: usize = if kept.len() < 80 {
        kept.len()
    } else {
        80
    };
    let head = text::slice_of(&kept, 0, end);
    proof {
        assert(head@ =~= kept@.take(end as int));
    }
    text::trim(&head)
}

/// The title that the payload of a control sequence sets.
pub fn osc_title(payload: &str) -> (title: Option<String>)
    ensures
        text::maybe(title) == reported_title(payload@),
{
    let raw = match text::strip_prefix(payload, "0;") {
        Some(title) => Some(title),
        None => text::strip_prefix(payload, "2;"),
    };
    match raw {
        Some(raw) => {
            let title = sanitize_terminal_title(&raw);
            if title.as_str().is_empty() {
                None
            } else {
                Some(title)
            }
        },
        None => None,
    }
}

impl Default for OscTracker {
    fn default() -> (tracker: OscTracker)
        ensures
            tracker@ == OscView::start(),
    {
        let tracker = OscTracker {
            state: OscState::Ground,
            buffer: Vec::new(),
            cwd_candidates: Vec::new(),
            title_update: None,
            clipboard_update: None,
        };
        proof {
            assert(tracker@ =~= OscView::start());
        }
        tracker
    }
}

fn copy_of(bytes: &Vec<u8>) -> (copied: Vec<u8>)
    ensures
        copied@ == bytes@,
{
    let mut copied: Vec<u8> = Vec::new();
    copied.extend_from_slice(bytes.as_slice());
    proof {
        assert(copied@ =~= bytes@);
    }
    copied
}

impl OscTracker {
    fn push_osc_byte(&mut self, byte: u8)
        ensures
            final(self)@ == old(self)@.pushed(byte),
    {
        if self.buffer.len() < MAX_OSC_PAYLOAD_BYTES {
            self.buffer.push(byte);
        } else {
            self.buffer.clear();
            self.state = OscState::Ground;
        }
        proof {
            assert(self@ =~= old(self)@.pushed(byte));
        }
    }

    fn finish_osc(&mut self)
        ensures
            final(self)@ == old(self)@.finished(),
    {
        if let Some(payload) = text::utf8_text(copy_of(&self.buffer)) {
            if let Some(directory) = osc7_path(&payload) {
                let ghost before = self.cwd_candidates@;
                self.cwd_candidates.push(directory);
                proof {
                    assert(text::texts(self.cwd_candidates@) =~= text::texts(before).push(
                        directory@,
                    ));
                }
            } else if let Some(title) = osc_title(&payload) {
                self.title_update = Some(title);
            } else if let Some(text) = clipboard::osc52_clipboard_text(&payload) {
                self.clipboard_update = Some(text);
            }
        }
        self.buffer.clear();
        self.state = OscState::Ground;
        proof {
            assert(self@ =~= old(self)@.finished());
        }
    }

    fn process_byte(&mut self, byte: u8)
        ensures
            final(self)@ == old(self)@.after_byte(byte),
    {
        match self.state {
            OscState::Ground => {
                if byte == 0x1b {
                    self.state = OscState::Esc;
                }
            },
            OscState::Esc => {
                if byte == 0x5d {
                    self.buffer.clear();
                    self.state = OscState::Osc;
                } else if byte != 0x1b {
                    self.state = OscState::Ground;
                }
            },
            OscState::Osc => match byte {
                0x07 => {
                    self.finish_osc();
                },
                0x1b => {
                    self.state = OscState::OscEsc;
                },
                _ => {
                    self.push_osc_byte(byte);
                },
            },
            OscState::OscEsc => {
                if byte == 0x5c {
                    self.finish_osc();
                } else {
                    self.push_osc_byte(0x1b);
                    if byte == 0x1b {
                        self.state = OscState::OscEsc;
                    } else {
                        self.push_osc_byte(byte);
                        self.state = OscState::Osc;
                    }
                }
            },
        }
        proof {
            assert(self@ =~= old(self)@.after_byte(byte));
        }
    }

    /// Reads more of the stream.
    pub fn process(&mut self, bytes: &[u8])
        ensures
            final(self)@ == old(self)@.after(bytes@),
    {
        for i in 0..bytes.len()
            invariant
                self@ == old(self)@.after(bytes@.take(i as int)),
        {
            proof {
                assert(bytes@.take(i + 1).drop_last() =~= bytes@.take(i as int));
            }
            self.process_byte(bytes[i]);
        }
        proof {
            assert(bytes@.take(bytes@.len() as int) =~= bytes@);
        }
    }

    /// The last of the reported paths that is a directory, as the flags of the
    /// reported paths say; the reported paths are forgotten.
    pub fn take_cwd_update(&mut self, is_directory: &Vec<bool>) -> (update: Option<String>)
        ensures
            text::maybe(update) == old(self)@.directory(is_directory@),
            final(self)@ == (OscView { candidates: Seq::empty(), ..old(self)@ }),
    {
        let mut update: Option<String> = None;
        let mut i: usize = is_directory.len();
        let ghost start = self@;
        proof {
            assert(is_directory@.take(i as int) =~= is_directory@);
        }
        while i > 0
            invariant_except_break
                update is None,
            invariant
                i <= is_directory@.len(),
                start == self@,
                start.directory(is_directory@) == start.directory(is_directory@.take(i as int)),
            ensures
                text::maybe(update) == start.directory(is_directory@),
            decreases i,
        {
            proof {
                assert(is_directory@.take(i as int).drop_last() =~= is_directory@.take(i - 1));
            }
            if is_directory[i - 1] && i <= self.cwd_candidates.len() {
                update = Some(self.cwd_candidates[i - 1].clone());
                break;
            }
            i = i - 1;
        }
        self.cwd_candidates.clear();
        proof {
            assert(self@ =~= OscView { candidates: Seq::empty(), ..old(self)@ });
        }
        update
    }

    pub fn take_title_update(&mut self) -> (update: Option<String>)
        ensures
            text::maybe(update) == old(self)@.title,
            final(self)@ == (OscView { title: None, ..old(self)@ }),
    {
        self.title_update.take()
    }

    pub fn take_clipboard_update(&mut self) -> (update: Option<String>)
        ensures
            text::maybe(update) == old(self)@.clipboard,
            final(self)@ == (OscView { clipboard: None, ..old(self)@ }),
    {
        self.clipboard_update.take()
    }
}

/// It does not matter how the stream is cut into pieces.
pub proof fn pieces_do_not_matter(tracker: OscView, first: Seq<u8>, second: Seq<u8>)
    ensures
        tracker.after(first + second) == tracker.after(first).after(second),
    decreases second.len(),
{
    if second.len() == 0 {
        assert(first + second =~= first);
    } else {
        pieces_do_not_matter(tracker, first, second.drop_last());
        assert((first + second).drop_last() =~= first + second.drop_last());
    }
}

/// The tracker never gathers more than the longest payload.
pub proof fn buffer_stays_small(tracker: OscView, bytes: Seq<u8>)
    requires
        tracker.buffer.len() <= MAX_OSC_PAYLOAD_BYTES,
    ensures
        tracker.after(bytes).buffer.len() <= MAX_OSC_PAYLOAD_BYTES,
    decreases bytes.len(),
{
    if bytes.len() > 0 {
        buffer_stays_small(tracker, bytes.drop_last());
    }
}

/// Output without an escape character changes nothing outside a sequence.
pub proof fn plain_output_changes_nothing(tracker: OscView, bytes: Seq<u8>)
    requires
        tracker.state == OscState::Ground,
        forall|i: int| 0 <= i < bytes.len() ==> bytes[i] != 0x1b,
    ensures
        tracker.after(bytes) == tracker,
    decreases bytes.len(),
{
    if bytes.len() > 0 {
        plain_output_changes_nothing(tracker, bytes.drop_last());
    }
}

proof fn lemma_gathers(tracker: OscView, payload: Seq<u8>)
    requires
        tracker.state == OscState::Osc,
        tracker.buffer.len() + payload.len() <= MAX_OSC_PAYLOAD_BYTES,
        forall|i: int| 0 <= i < payload.len() ==> payload[i] != 0x1b && payload[i] != 0x07,
    ensures
        tracker.after(payload) == (OscView { buffer: tracker.buffer + payload, ..tracker }),
    decreases payload.len(),
{
    if payload.len() == 0 {
        assert(tracker.buffer + payload =~= tracker.buffer);
    } else {
        lemma_gathers(tracker, payload.drop_last());
        assert((tracker.buffer + payload.drop_last()).push(payload.last()) =~= tracker.buffer
            + payload);
    }
}

/// A whole control sequence takes effect as its payload says, whichever of the
/// two terminators ends it.
pub proof fn whole_sequence_takes_effect(tracker: OscView, payload: Seq<u8>)
    requires
        tracker.state == OscState::Ground,
        payload.len() <= MAX_OSC_PAYLOAD_BYTES,
        forall|i: int| 0 <= i < payload.len() ==> payload[i] != 0x1b && payload[i] != 0x07,
    ensures
        ({
            let effect = OscView { buffer: payload, ..tracker }.finished();
            &&& tracker.after(seq![0x1bu8, 0x5d] + payload + seq![0x07u8]) == effect
            &&& tracker.after(seq![0x1bu8, 0x5d] + payload + seq![0x1bu8, 0x5c]) == effect
        }),
{
    let head = seq![0x1bu8, 0x5d];
    let opened = OscView { state: OscState::Osc, buffer: Seq::empty(), ..tracker };
    assert(head.drop_last() =~= seq![0x1bu8]);
    assert(head.drop_last().drop_last() =~= Seq::<u8>::empty());
    reveal_with_fuel(OscView::after, 3);
    assert(tracker.after(head) == opened);
    pieces_do_not_matter(tracker, head, payload);
    lemma_gathers(opened, payload);
    assert(opened.buffer + payload =~= payload);
    let gathered = OscView { state: OscState::Osc, buffer: payload, ..tracker };
    assert(tracker.after(head + payload) == gathered);
    pieces_do_not_matter(tracker, head + payload, seq![0x07u8]);
    assert(seq![0x07u8].drop_last() =~= Seq::<u8>::empty());
    assert(gathered.after(seq![0x07u8]) == gathered.finished());
    let st = seq![0x1bu8, 0x5c];
    pieces_do_not_matter(tracker, head + payload, st);
    assert(st.drop_last() =~= seq![0x1bu8]);
    assert(st.drop_last().drop_last() =~= Seq::<u8>::empty());
    assert(gathered.after(st) == OscView { state: OscState::OscEsc, ..gathered }.finished());
    assert(gathered.finished() =~= OscView { buffer: payload, ..tracker }.finished());
    assert(OscView { state: OscState::OscEsc, ..gathered }.finished() =~= OscView {
        buffer: payload,
        ..tracker
    }.finished());
}

/// The sequence that sets the clipboard to a text of at most 3066 bytes, read
/// from the output of a shell, sets the clipboard to that text and does nothing
/// else.
pub proof fn clipboard_sequence_reads_back(tracker: OscView, encoded: Seq<char>, text: Seq<char>)
    requires
        tracker.state == OscState::Ground,
        clipboard::encodes(encoded, vstd::utf8::encode_utf8(text)),
        text.len() > 0,
        vstd::utf8::encode_utf8(text).len() <= 3066,
    ensures
        tracker.after(vstd::utf8::encode_utf8(clipboard::osc52_sequence(encoded))) == (OscView {
            clipboard: Some(text),
            buffer: Seq::empty(),
            ..tracker
        }),
{
    reveal_strlit("\x1b]52;c;");
    reveal_strlit("52;c;");
    reveal_strlit("\x07");
    reveal_strlit("7;");
    reveal_strlit("0;");
    reveal_strlit("2;");
    let sequence = clipboard::osc52_sequence(encoded);
    let payload = "52;c;"@ + encoded;
    let bytes = vstd::utf8::encode_utf8(payload);
    assert forall|i: int| 0 <= i < encoded.len() implies '\0' <= #[trigger] encoded[i] <= '\u{7f}'
        && encoded[i] != '\x1b' && encoded[i] != '\x07' by {
        assert(clipboard::is_base64_char(encoded[i]));
    }
    assert(vstd::utf8::is_ascii_chars(payload));
    assert(vstd::utf8::is_ascii_chars(sequence));
    vstd::utf8::is_ascii_chars_encode_utf8(payload);
    vstd::utf8::is_ascii_chars_encode_utf8(sequence);
    let all = seq![0x1bu8, 0x5d] + bytes + seq![0x07u8];
    assert(vstd::utf8::encode_utf8(sequence) =~= all) by {
        assert forall|i: int| 0 <= i < all.len() implies vstd::utf8::encode_utf8(sequence)[i]
            == all[i] by {
            assert(sequence[i] as u8 == vstd::utf8::encode_utf8(sequence)[i]);
            if 2 <= i < all.len() - 1 {
                assert(payload[i - 2] as u8 == bytes[i - 2]);
                assert(sequence[i] == payload[i - 2]);
            }
        }
    }
    assert forall|i: int| 0 <= i < bytes.len() implies bytes[i] != 0x1b && bytes[i] != 0x07 by {
        assert(payload[i] as u8 == bytes[i]);
        if i >= 5 {
            assert(payload[i] == encoded[i - 5]);
        }
    }
    whole_sequence_takes_effect(tracker, bytes);
    let gathered = OscView { buffer: bytes, ..tracker };
    assert(path::utf8(bytes) == Some(payload));
    assert(payload[0] == '5');
    assert(!("7;"@.is_prefix_of(payload))) by {
        assert("7;"@[0] == '7');
        if "7;"@.is_prefix_of(payload) {
            assert(payload.subrange(0, 2)[0] == payload[0]);
        }
    }
    assert(!("0;"@.is_prefix_of(payload))) by {
        assert("0;"@[0] == '0');
        if "0;"@.is_prefix_of(payload) {
            assert(payload.subrange(0, 2)[0] == payload[0]);
        }
    }
    assert(!("2;"@.is_prefix_of(payload))) by {
        assert("2;"@[0] == '2');
        if "2;"@.is_prefix_of(payload) {
            assert(payload.subrange(0, 2)[0] == payload[0]);
        }
    }
    clipboard::clipboard_payload_reads_back(encoded, text);
    assert(gathered.told(payload) == OscView { clipboard: Some(text), ..gathered });
}

/// A tracker that has read nothing but the sequence that sets the clipboard to a
/// text gives the text once, and neither a title nor a directory.
pub proof fn copied_text_is_taken_once(encoded: Seq<char>, text: Seq<char>)
    requires
        clipboard::encodes(encoded, vstd::utf8::encode_utf8(text)),
        text.len() > 0,
        vstd::utf8::encode_utf8(text).len() <= 3066,
    ensures
        ({
            let read = OscView::start().after(
                vstd::utf8::encode_utf8(clipboard::osc52_sequence(encoded)),
            );
            &&& read.clipboard == Some(text)
            &&& read.title is None
            &&& read.candidates.len() == 0
            &&& OscView { clipboard: None, ..read } == OscView::start()
        }),
{
    clipboard_sequence_reads_back(OscView::start(), encoded, text);
}

/// A shell that reports a directory on any host, by the URI of its path, is taken to
/// be there.
pub proof fn reported_directories_are_taken(tracker: OscView, host: Seq<char>, path: Seq<char>)
    requires
        !host.contains('/'),
        path.len() > 0,
        path[0] == '/',
    ensures
        ({
            let payload = seq!['7', ';', 'f', 'i', 'l', 'e', ':', '/', '/'] + host + uri::encoded(
                vstd::utf8::encode_utf8(path),
            );
            tracker.told(payload) == (OscView {
                candidates: tracker.candidates.push(path),
                ..tracker
            })
        }),
{
    reveal_strlit("7;");
    reveal_strlit("file://");
    let coded = uri::encoded(vstd::utf8::encode_utf8(path));
    let head = seq!['7', ';', 'f', 'i', 'l', 'e', ':', '/', '/'];
    let payload = head + host + coded;
    assert(payload.subrange(0, 2) =~= "7;"@);
    let rest = payload.skip(2);
    assert(rest.subrange(0, 7) =~= "file://"@);
    let url = rest.skip(7);
    assert(url =~= host + coded);
    uri::lemma_encoded_slash(path);
    assert(coded[0] == '/');
    text::lemma_until(url, '/');
    let at = text::until(url, '/') as int;
    assert(url[host.len() as int] == '/');
    if at < host.len() {
        assert(url[at] == host[at]);
        assert(host.contains('/'));
    }
    assert(at == host.len());
    assert(url.skip(at) =~= coded);
    uri::percent_encoding_round_trip(path);
}

proof fn lemma_printable(title: Seq<char>)
    ensures
        forall|i: int| 0 <= i < printable(title).len() ==> !text::is_control(
            #[trigger] printable(title)[i],
        ),
        (forall|i: int| 0 <= i < title.len() ==> !text::is_control(#[trigger] title[i]))
            ==> printable(title) == title,
        printable(title).len() <= title.len(),
    decreases title.len(),
{
    if title.len() > 0 {
        let head = title.drop_last();
        lemma_printable(head);
        assert forall|i: int| 0 <= i < head.len() implies #[trigger] head[i] == title[i] by {}
        if forall|i: int| 0 <= i < title.len() ==> !text::is_control(#[trigger] title[i]) {
            assert forall|i: int| 0 <= i < head.len() implies !text::is_control(
                #[trigger] head[i],
            ) by {
                assert(title[i] == head[i]);
            }
            assert(!text::is_control(title[title.len() - 1]));
            assert(head.push(title.last()) =~= title);
        }
    } else {
        assert(printable(title) =~= title);
    }
}

/// A title that can be shown, of at most eighty characters and without blanks at its
/// ends, is set as it is, by either of the two sequences for it.
pub proof fn reported_titles_are_taken(tracker: OscView, title: Seq<char>)
    requires
        0 < title.len() <= 80,
        forall|i: int| 0 <= i < title.len() ==> !text::is_control(#[trigger] title[i]),
        !text::is_whitespace(title[0]),
        !text::is_whitespace(title[title.len() - 1]),
    ensures
        tracker.told(seq!['0', ';'] + title) == (OscView { title: Some(title), ..tracker }),
        tracker.told(seq!['2', ';'] + title) == (OscView { title: Some(title), ..tracker }),
{
    reveal_strlit("7;");
    reveal_strlit("0;");
    reveal_strlit("2;");
    lemma_printable(title);
    assert(title.take(title.len() as int) =~= title);
    assert(title.take(80) =~= title || title.len() < 80);
    text::lemma_trimmed_already(title);
    let icon = seq!['0', ';'] + title;
    let window = seq!['2', ';'] + title;
    assert(icon.subrange(0, 2) =~= "0;"@);
    assert(window.subrange(0, 2) =~= "2;"@);
    assert(icon.skip(2) =~= title);
    assert(window.skip(2) =~= title);
    assert("7;"@[0] == '7' && "0;"@[0] == '0' && "2;"@[0] == '2');
    assert(!("7;"@.is_prefix_of(icon))) by {
        assert(icon.subrange(0, 2)[0] == '0');
    }
    assert(!("7;"@.is_prefix_of(window))) by {
        assert(window.subrange(0, 2)[0] == '2');
    }
    assert(!("0;"@.is_prefix_of(window))) by {
        assert(window.subrange(0, 2)[0] == '2');
    }
}

/// A title that is set holds at most eighty characters, and no control characters.
pub proof fn titles_can_be_shown(payload: Seq<char>)
    ensures
        reported_title(payload) matches Some(title) ==> {
            &&& 0 < title.len() <= 80
            &&& forall|i: int| 0 <= i < title.len() ==> !text::is_control(#[trigger] title[i])
        },
{
    if let Some(title) = reported_title(payload) {
        let raw = match text::after_prefix(payload, "0;"@) {
            Some(title) => title,
            None => text::after_prefix(payload, "2;"@)->0,
        };
        lemma_printable(raw);
        let shown = printable(raw);
        let cut = shown.take(
            if shown.len() < 80 {
                shown.len() as int
            } else {
                80
            },
        );
        let ends = text::trimming_takes_blanks_off_the_ends(cut);
        assert forall|i: int| 0 <= i < title.len() implies !text::is_control(
            #[trigger] title[i],
        ) by {
            assert(title[i] == cut[ends.0 + i]);
            assert(cut[ends.0 + i] == shown[ends.0 + i]);
        }
    }
}

/// A payload that reports no directory, title or clipboard changes nothing.
pub proof fn other_payloads_change_nothing(tracker: OscView, payload: Seq<char>)
    requires
        payload.len() > 0,
        payload[0] != '0' && payload[0] != '2' && payload[0] != '5' && payload[0] != '7',
    ensures
        tracker.told(payload) == tracker,
{
    reveal_strlit("7;");
    reveal_strlit("0;");
    reveal_strlit("2;");
    reveal_strlit("52;");
    assert("7;"@[0] == '7' && "0;"@[0] == '0' && "2;"@[0] == '2' && "52;"@[0] == '5');
    if payload.len() >= 2 {
        assert(payload.subrange(0, 2)[0] == payload[0]);
    }
    if payload.len() >= 3 {
        assert(payload.subrange(0, 3)[0] == payload[0]);
    }
}

/// What a payload says takes effect once its sequence is whole.
pub proof fn payloads_take_effect(tracker: OscView, payload: Seq<char>)
    requires
        tracker.state is Ground,
        vstd::utf8::encode_utf8(payload).len() <= 4096,
        forall|i: int|
            0 <= i < vstd::utf8::encode_utf8(payload).len() ==> vstd::utf8::encode_utf8(payload)[i]
                != 0x1b && vstd::utf8::encode_utf8(payload)[i] != 0x07,
    ensures
        ({
            let bytes = vstd::utf8::encode_utf8(payload);
            let bell = tracker.after(seq![0x1bu8, 0x5du8] + bytes + seq![0x07u8]);
            let told = tracker.told(payload);
            &&& bell == tracker.after(seq![0x1bu8, 0x5du8] + bytes + seq![0x1bu8, 0x5cu8])
            &&& bell.state is Ground
            &&& bell.candidates == told.candidates
            &&& bell.title == told.title
            &&& bell.clipboard == told.clipboard
        }),
{
    let bytes = vstd::utf8::encode_utf8(payload);
    whole_sequence_takes_effect(tracker, bytes);
    assert(path::utf8(bytes) == Some(payload));
}

/// The directory is the last of the reported paths that is one.
pub proof fn the_last_directory_counts(tracker: OscView, is_directory: Seq<bool>, k: int)
    requires
        0 <= k < is_directory.len(),
        is_directory.len() == tracker.candidates.len(),
        forall|i: int| k < i < is_directory.len() ==> !(#[trigger] is_directory[i]),
        is_directory[k],
    ensures
        tracker.directory(is_directory) == Some(tracker.candidates[k]),
{
    lemma_directory(tracker, is_directory, k);
}

proof fn lemma_directory(tracker: OscView, is_directory: Seq<bool>, k: int)
    requires
        0 <= k < is_directory.len() <= tracker.candidates.len(),
        forall|i: int| k < i < is_directory.len() ==> !(#[trigger] is_directory[i]),
        is_directory[k],
    ensures
        tracker.directory(is_directory) == Some(tracker.candidates[k]),
    decreases is_directory.len(),
{
    if k < is_directory.len() - 1 {
        assert(!is_directory[is_directory.len() - 1]);
        let head = is_directory.drop_last();
        assert forall|i: int| k < i < head.len() implies !(#[trigger] head[i]) by {
            assert(is_directory[i] == head[i]);
        }
        lemma_directory(tracker, head, k);
    }
}

/// An escape character that follows another begins a sequence as well; one that is
/// followed by something else than a bracket begins none. Within a payload it belongs to
/// the payload, unless a backslash follows it. A payload of more than 4096 bytes is
/// dropped.
pub proof fn escapes_count_by_what_follows(tracker: OscView, byte: u8)
    ensures
        tracker.state is Ground ==> {
            let begun = tracker.after_byte(0x1b);
            &&& begun.after_byte(0x1b) == begun
            &&& begun.after_byte(0x5d).state is Osc
            &&& begun.after_byte(0x5d).buffer.len() == 0
            &&& byte != 0x1b && byte != 0x5d ==> begun.after_byte(byte) == tracker
        },
        tracker.state is Osc && tracker.buffer.len() + 2 <= 4096 ==> {
            let next = tracker.after_byte(0x1b);
            &&& byte != 0x1b && byte != 0x5c ==> next.after_byte(byte) == (OscView {
                buffer: tracker.buffer + seq![0x1bu8, byte],
                ..tracker
            })
            &&& next.after_byte(0x1b).after_byte(0x5c) == (OscView {
                buffer: tracker.buffer + seq![0x1bu8],
                ..tracker
            }).finished()
        },
        tracker.state is Osc && tracker.buffer.len() >= 4096 && byte != 0x07 && byte != 0x1b ==> tracker.after_byte(byte).state is Ground && tracker.after_byte(
            byte,
        ).buffer.len() == 0,
{
    assert(tracker.buffer.push(0x1b).push(byte) =~= tracker.buffer + seq![0x1bu8, byte]);
    assert(tracker.buffer.push(0x1b) =~= tracker.buffer + seq![0x1bu8]);
}

} // verus!
