//! The clipboard of the surrounding terminal: the control sequence that sets
//! it, and what such a sequence says.

use vstd::prelude::*;

use crate::text;

use ::base64::engine::general_purpose::STANDARD;
use ::base64::Engine;

verus! {

broadcast use vstd::utf8::group_utf8_lib;

/// The text that `Engine::encode` of the `base64` crate gives for bytes, with
/// the standard alphabet and padding.
pub uninterp spec fn base64_text(bytes: Seq<u8>) -> Seq<char>;

/// The bytes that `Engine::decode` of the `base64` crate gives for a text, with
/// the standard alphabet and padding; nothing where it reports an error.
pub uninterp spec fn base64_bytes(text: Seq<char>) -> Option<Seq<u8>>;

/// The characters of the standard alphabet, and the padding.
pub open spec fn is_base64_char(c: char) -> bool {
    ||| 'A' <= c <= 'Z'
    ||| 'a' <= c <= 'z'
    ||| '0' <= c <= '9'
    ||| c == '+'
    ||| c == '/'
    ||| c == '='
}

/// What is known of the encoding of bytes: it decodes to them, consists of the
/// alphabet, and has four characters for each three bytes begun.
pub open spec fn encodes(encoded: Seq<char>, bytes: Seq<u8>) -> bool {
    &&& base64_bytes(encoded) == Some(bytes)
    &&& forall|i: int| 0 <= i < encoded.len() ==> is_base64_char(#[trigger] encoded[i])
    &&& encoded.len() == (bytes.len() + 2) / 3 * 4
}

/// Calls `Engine::encode` of the `base64` crate on the standard engine. The
/// result is a function of the bytes; it decodes to them again, consists of
/// the standard alphabet and padding, and has four characters for each three
/// bytes begun.
#[verifier::external_body]
fn base64_encode(bytes: &[u8]) -> (encoded: String)
    requires
        bytes@.len() <= usize::MAX / 4,
    ensures
        encoded@ == base64_text(bytes@),
        encodes(encoded@, bytes@),
{
    STANDARD.encode(bytes)
}

/// Calls `Engine::decode` of the `base64` crate on the standard engine. The
/// result is a function of the text; the reason of an error is dropped.
#[verifier::external_body]
fn base64_decode(encoded: &str) -> (bytes: Option<Vec<u8>>)
    ensures
        (match bytes {
            Some(b) => Some(b@),
            None => None,
        }) == base64_bytes(encoded@),
{
    STANDARD.decode(encoded).ok()
}

/// The control sequence that hands an encoded text to the clipboard.
pub open spec fn osc52_sequence(encoded: Seq<char>) -> Seq<char> {
    "\x1b]52;c;"@ + encoded + "\x07"@
}

/// The control sequence that sets the clipboard to this encoded text.
pub fn osc52_sequence_of(encoded: &str) -> (sequence: String)
    ensures
        sequence@ == osc52_sequence(encoded@),
{
    let mut sequence = "\x1b]52;c;".to_owned();
    sequence.append(encoded);
    sequence.append("\x07");
    sequence
}

/// The control sequence that sets the clipboard to a text.
pub fn osc52_clipboard_sequence(text: &str) -> (sequence: String)
    requires
        vstd::utf8::encode_utf8(text@).len() <= usize::MAX / 4,
    ensures
        sequence@ == osc52_sequence(base64_text(vstd::utf8::encode_utf8(text@))),
        encodes(base64_text(vstd::utf8::encode_utf8(text@)), vstd::utf8::encode_utf8(text@)),
{
    osc52_sequence_of(&base64_encode(text.as_bytes()))
}

/// The encoded text in the payload of a sequence that sets the clipboard: what
/// follows the selection, unless that is nothing or a question.
pub open spec fn encoded_part(payload: Seq<char>) -> Option<Seq<char>> {
    match text::after_prefix(payload, "52;"@) {
        None => None,
        Some(rest) => {
            let at = text::until(rest, ';');
            if at >= rest.len() {
                None
            } else {
                let encoded = text::trimmed(rest.skip(at as int + 1));
                if encoded.len() == 0 || encoded == "?"@ {
                    None
                } else {
                    Some(encoded)
                }
            }
        },
    }
}

pub fn osc52_encoded_part(payload: &str) -> (encoded: Option<String>)
    ensures
        text::maybe(encoded) == encoded_part(payload@),
{
    let rest = match text::strip_prefix(payload, "52;") {
        Some(rest) => rest,
        None => {
            return None;
        },
    };
    let chars = text::chars_of(&rest);
    let at = text::position_of(&chars, ';', 0);
    proof {
        assert(chars@.skip(0) =~= rest@);
    }
    if at >= chars.len() {
        return None;
    }
    let raw = text::slice_of(&chars, at + 1, chars.len());
    proof {
        assert(raw@ =~= rest@.skip(at as int + 1));
    }
    let encoded = text::trim(&raw);
    if encoded.as_str().is_empty() || text::same(&encoded, "?") {
        None
    } else {
        Some(encoded)
    }
}

/// The text that decoded bytes stand for.
pub open spec fn decoded_text(decoded: Option<Seq<u8>>) -> Option<Seq<char>> {
    match decoded {
        Some(bytes) => crate::path::utf8(bytes),
        None => None,
    }
}

/// The text for the clipboard in what an encoded part decoded to; nothing where
/// it did not decode or is not text.
pub fn osc52_decoded_text(decoded: Option<Vec<u8>>) -> (text: Option<String>)
    ensures
        text::maybe(text) == decoded_text(
            match decoded {
                Some(bytes) => Some(bytes@),
                None => None,
            },
        ),
{
    match decoded {
        Some(bytes) => text::utf8_text(bytes),
        None => None,
    }
}

/// The text that the payload of a control sequence sets the clipboard to.
pub open spec fn clipboard_text(payload: Seq<char>) -> Option<Seq<char>> {
    match encoded_part(payload) {
        Some(encoded) => decoded_text(base64_bytes(encoded)),
        None => None,
    }
}

pub fn osc52_clipboard_text(payload: &str) -> (text: Option<String>)
    ensures
        text::maybe(text) == clipboard_text(payload@),
{
    match osc52_encoded_part(payload) {
        Some(encoded) => osc52_decoded_text(base64_decode(&encoded)),
        None => None,
    }
}

proof fn lemma_until_after(prefix: Seq<char>, rest: Seq<char>, c: char)
    requires
        forall|i: int| 0 <= i < prefix.len() ==> prefix[i] != c,
    ensures
        text::until(prefix + seq![c] + rest, c) == prefix.len(),
    decreases prefix.len(),
{
    let whole = prefix + seq![c] + rest;
    if prefix.len() > 0 {
        lemma_until_after(prefix.drop_first(), rest, c);
        assert(whole.drop_first() =~= prefix.drop_first() + seq![c] + rest);
    }
}

/// The payload of the sequence that sets the clipboard to a text reads back as
/// that text.
pub proof fn clipboard_payload_reads_back(encoded: Seq<char>, text: Seq<char>)
    requires
        encodes(encoded, vstd::utf8::encode_utf8(text)),
        text.len() > 0,
    ensures
        clipboard_text("52;c;"@ + encoded) == Some(text),
{
    reveal_strlit("52;c;");
    reveal_strlit("52;");
    reveal_strlit("?");
    let payload = "52;c;"@ + encoded;
    assert(vstd::utf8::encode_utf8(text).len() > 0) by {
        vstd::utf8::encode_utf8_decode_utf8(text);
        if vstd::utf8::encode_utf8(text).len() == 0 {
            assert(vstd::utf8::decode_utf8(vstd::utf8::encode_utf8(text)).len() == 0);
        }
    }
    assert(payload.subrange(0, 3) =~= "52;"@);
    let rest = payload.skip(3);
    assert(rest =~= seq!['c'] + seq![';'] + encoded);
    lemma_until_after(seq!['c'], encoded, ';');
    assert(rest.skip(2) =~= encoded);
    assert(is_base64_char(encoded[0]));
    assert(is_base64_char(encoded[encoded.len() - 1]));
    text::lemma_trimmed_already(encoded);
    if encoded == "?"@ {
        assert(encoded[0] == '?');
    }
}

/// What is handed to the clipboard stands behind the selection that it is for; a question
/// for the clipboard, and an empty one, hand nothing to it.
pub proof fn payloads_hand_over_what_is_encoded(selection: Seq<char>, encoded: Seq<char>)
    requires
        !selection.contains(';'),
    ensures
        ({
            let payload = seq!['5', '2', ';'] + selection + seq![';'] + encoded;
            let part = encoded_part(payload);
            &&& text::trimmed(encoded).len() == 0 ==> part is None
            &&& text::trimmed(encoded) == seq!['?'] ==> part is None
            &&& text::trimmed(encoded).len() > 0 && text::trimmed(encoded) != seq!['?'] ==> part
                == Some(text::trimmed(encoded))
        }),
        osc52_sequence(encoded) == seq!['\x1b', ']', '5', '2', ';', 'c', ';'] + encoded + seq![
            '\x07',
        ],
{
    reveal_strlit("52;");
    reveal_strlit("?");
    reveal_strlit("\x1b]52;c;");
    reveal_strlit("\x07");
    assert("?"@ =~= seq!['?']);
    assert("\x1b]52;c;"@ =~= seq!['\x1b', ']', '5', '2', ';', 'c', ';']);
    assert("\x07"@ =~= seq!['\x07']);
    let payload = seq!['5', '2', ';'] + selection + seq![';'] + encoded;
    assert(payload.subrange(0, 3) =~= "52;"@);
    let rest = payload.skip(3);
    assert(rest =~= selection + seq![';'] + encoded);
    assert forall|i: int| 0 <= i < selection.len() implies selection[i] != ';' by {
        if selection[i] == ';' {
            assert(selection.contains(';'));
        }
    }
    lemma_until_after(selection, encoded, ';');
    assert(rest.skip(selection.len() as int + 1) =~= encoded);
}

} // verus!
