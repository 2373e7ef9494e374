//! File URIs: paths in percent encoding.

use vstd::prelude::*;

use crate::path::Platform;
use crate::text;

verus! {

broadcast use vstd::utf8::group_utf8_lib;

/// The bytes of a path that stand for themselves in a URI.
pub open spec fn is_plain(byte: u8) -> bool {
    ||| 0x30 <= byte <= 0x39
    ||| 0x41 <= byte <= 0x5a
    ||| 0x61 <= byte <= 0x7a
    ||| byte == 0x2f
    ||| byte == 0x2d
    ||| byte == 0x5f
    ||| byte == 0x2e
    ||| byte == 0x7e
    ||| byte == 0x3a
}

/// The hexadecimal digit for a number below sixteen, in upper case.
pub open spec fn hex_digit(n: int) -> char {
    if n < 10 {
        (0x30 + n) as char
    } else {
        (0x37 + n) as char
    }
}

/// The number a hexadecimal digit stands for, in either case.
pub open spec fn hex_number(byte: u8) -> Option<u8> {
    if 0x30 <= byte <= 0x39 {
        Some((byte - 0x30) as u8)
    } else if 0x61 <= byte <= 0x66 {
        Some((byte - 0x57) as u8)
    } else if 0x41 <= byte <= 0x46 {
        Some((byte - 0x37) as u8)
    } else {
        None
    }
}

/// How one byte is written: as itself, or as a percent sign and two digits.
pub open spec fn encoded_byte(byte: u8) -> Seq<char> {
    if is_plain(byte) {
        seq![byte as char]
    } else {
        seq!['%', hex_digit(byte as int / 16), hex_digit(byte as int % 16)]
    }
}

/// The percent encoding of a sequence of bytes.
pub open spec fn encoded(bytes: Seq<u8>) -> Seq<char>
    decreases bytes.len(),
{
    if bytes.len() == 0 {
        Seq::empty()
    } else {
        encoded(bytes.drop_last()) + encoded_byte(bytes.last())
    }
}

/// The bytes a percent encoding stands for, unless a percent sign lacks its
/// two digits.
pub open spec fn decoded_bytes(bytes: Seq<u8>) -> Option<Seq<u8>>
    decreases bytes.len(),
{
    if bytes.len() == 0 {
        Some(Seq::empty())
    } else if bytes[0] == 0x25 {
        if bytes.len() < 3 {
            None
        } else {
            match (hex_number(bytes[1]), hex_number(bytes[2]), decoded_bytes(bytes.skip(3))) {
                (Some(high), Some(low), Some(rest)) => Some(
                    seq![(high * 16 + low) as u8] + rest,
                ),
                _ => None,
            }
        }
    } else {
        match decoded_bytes(bytes.skip(1)) {
            Some(rest) => Some(seq![bytes[0]] + rest),
            None => None,
        }
    }
}

/// The text a percent encoding stands for: its bytes, where they are UTF-8.
pub open spec fn decoded(value: Seq<char>) -> Option<Seq<char>> {
    match decoded_bytes(vstd::utf8::encode_utf8(value)) {
        Some(bytes) => if vstd::utf8::valid_utf8(bytes) {
            Some(vstd::utf8::decode_utf8(bytes))
        } else {
            None
        },
        None => None,
    }
}

fn plain(byte: u8) -> (yes: bool)
    ensures
        yes == is_plain(byte),
{
    (0x30 <= byte && byte <= 0x39) || (0x41 <= byte && byte <= 0x5a) || (0x61 <= byte && byte
        <= 0x7a) || byte == 0x2f || byte == 0x2d || byte == 0x5f || byte == 0x2e || byte == 0x7e
        || byte == 0x3a
}

fn hex_char(n: u8) -> (c: char)
    requires
        n < 16,
    ensures
        c == hex_digit(n as int),
{
    if n < 10 {
        (0x30 + n) as char
    } else {
        (0x37 + n) as char
    }
}

/// Percent encodes the UTF-8 bytes of a path.
pub fn percent_encode_path(path: &str) -> (out: String)
    ensures
        out@ == encoded(vstd::utf8::encode_utf8(path@)),
{
    let bytes = path.as_bytes();
    let mut out = String::new();
    for i in 0..bytes.len()
        invariant
            bytes@ == vstd::utf8::encode_utf8(path@),
            out@ == encoded(bytes@.take(i as int)),
    {
        let ghost before = out@;
        let byte = bytes[i];
        if plain(byte) {
            out.push(byte as char);
        } else {
            out.push('%');
            out.push(hex_char(byte / 16));
            out.push(hex_char(byte % 16));
        }
        proof {
            assert(bytes@.take(i + 1).drop_last() =~= bytes@.take(i as int));
            assert(out@ =~= before + encoded_byte(byte));
        }
    }
    proof {
        assert(bytes@.take(bytes@.len() as int) =~= bytes@);
    }
    out
}

/// The number a hexadecimal digit stands for.
pub fn hex_value(byte: u8) -> (value: Option<u8>)
    ensures
        value == hex_number(byte),
{
    match byte {
        0x30..=0x39 => Some(byte - 0x30),
        0x61..=0x66 => Some(byte - 0x57),
        0x41..=0x46 => Some(byte - 0x37),
        _ => None,
    }
}

/// What is left of a decoding once `done` bytes of its result are known.
spec fn continued(done: Seq<u8>, rest: Seq<u8>) -> Option<Seq<u8>> {
    match decoded_bytes(rest) {
        Some(more) => Some(done + more),
        None => None,
    }
}

/// Undoes percent encoding; nothing where the encoding is broken or what it
/// stands for is not text.
pub fn percent_decode(value: &str) -> (out: Option<String>)
    ensures
        text::maybe(out) == decoded(value@),
{
    let bytes = value.as_bytes();
    let mut done: Vec<u8> = Vec::new();
    let mut index: usize = 0;
    proof {
        assert(bytes@.skip(0) =~= bytes@);
        if decoded_bytes(bytes@) is Some {
            assert(done@ + decoded_bytes(bytes@)->0 =~= decoded_bytes(bytes@)->0);
        }
    }
    while index < bytes.len()
        invariant
            index <= bytes@.len(),
            bytes@ == vstd::utf8::encode_utf8(value@),
            decoded_bytes(bytes@) == continued(done@, bytes@.skip(index as int)),
        decreases bytes@.len() - index,
    {
        let ghost before = done@;
        let ghost rest = bytes@.skip(index as int);
        if bytes[index] == 0x25 {
            if bytes.len() - index < 3 {
                return None;
            }
            let high = hex_value(bytes[index + 1]);
            let low = hex_value(bytes[index + 2]);
            proof {
                assert(rest[1] == bytes@[index + 1] && rest[2] == bytes@[index + 2]);
            }
            match (high, low) {
                (Some(high), Some(low)) => {
                    done.push(high * 16 + low);
                    proof {
                        assert(rest.skip(3) =~= bytes@.skip(index + 3));
                        if decoded_bytes(rest.skip(3)) is Some {
                            let more = decoded_bytes(rest.skip(3))->0;
                            assert(before + (seq![(high * 16 + low) as u8] + more) =~= done@
                                + more);
                        }
                    }
                },
                _ => {
                    return None;
                },
            }
            index = index + 3;
        } else {
            done.push(bytes[index]);
            proof {
                assert(rest.skip(1) =~= bytes@.skip(index + 1));
                if decoded_bytes(rest.skip(1)) is Some {
                    let more = decoded_bytes(rest.skip(1))->0;
                    assert(before + (seq![bytes@[index as int]] + more) =~= done@ + more);
                }
            }
            index = index + 1;
        }
    }
    proof {
        assert(bytes@.skip(index as int).len() == 0);
        assert(done@ + Seq::<u8>::empty() =~= done@);
    }
    let out = text::utf8_text(done);
    out
}

/// A path with slashes in place of backslashes.
pub open spec fn with_slashes(path: Seq<char>) -> Seq<char> {
    path.map_values(|c: char| if c == '\\' { '/' } else { c })
}

/// The file URI of a path.
pub open spec fn file_uri(path: Seq<char>) -> Seq<char> {
    "file://"@ + encoded(vstd::utf8::encode_utf8(with_slashes(path)))
}

/// A path of a URI on a platform: on Windows without the slash that it may begin
/// with, which stands before a drive.
pub open spec fn without_slash(path: Seq<char>, platform: Platform) -> Seq<char> {
    if platform == Platform::Windows && path.len() > 0 && path[0] == '/' {
        path.drop_first()
    } else {
        path
    }
}

/// The path of a file URI on a platform.
pub open spec fn uri_path(uri: Seq<char>, platform: Platform) -> Option<Seq<char>> {
    if "file://"@.is_prefix_of(uri) {
        decoded(without_slash(uri.skip("file://"@.len() as int), platform))
    } else {
        None
    }
}

/// A path with slashes in place of backslashes.
pub fn slashed(path: &str) -> (out: String)
    ensures
        out@ == with_slashes(path@),
{
    let chars = text::chars_of(path);
    let mut out = String::new();
    for i in 0..chars.len()
        invariant
            chars@ == path@,
            out@ == with_slashes(path@.take(i as int)),
    {
        if chars[i] == '\\' {
            out.push('/');
        } else {
            out.push(chars[i]);
        }
        proof {
            assert(out@ =~= with_slashes(path@.take(i + 1)));
        }
    }
    proof {
        assert(path@.take(path@.len() as int) =~= path@);
    }
    out
}

/// The file URI of the path with this text. The path is expected to be
/// absolute.
pub fn path_to_file_uri(path: &str) -> (uri: String)
    ensures
        uri@ == file_uri(path@),
{
    let mut uri = "file://".to_owned();
    uri.append(&percent_encode_path(&slashed(path)));
    uri
}

/// The path that a file URI names on a platform; nothing for another URI or a
/// broken encoding.
pub fn file_uri_to_path(uri: &str, platform: Platform) -> (path: Option<String>)
    ensures
        text::maybe(path) == uri_path(uri@, platform),
{
    match text::strip_prefix(uri, "file://") {
        Some(value) => {
            proof {
                reveal_strlit("/");
                assert("/"@ =~= seq!['/']);
                let prefix = "/"@;
                if value@.len() > 0 {
                    assert(value@.subrange(0, 1) =~= seq![value@[0]]);
                    if value@[0] != '/' && value@.subrange(0, 1) == prefix {
                        assert(prefix[0] == value@.subrange(0, 1)[0]);
                    }
                }
                assert(value@.len() > 0 ==> value@.skip(1) =~= value@.drop_first());
            }
            if platform == Platform::Windows {
                if let Some(rest) = text::strip_prefix(&value, "/") {
                    return percent_decode(&rest);
                }
            }
            percent_decode(&value)
        },
        None => None,
    }
}

proof fn lemma_encoded_front(bytes: Seq<u8>)
    requires
        bytes.len() > 0,
    ensures
        encoded(bytes) == encoded_byte(bytes[0]) + encoded(bytes.drop_first()),
    decreases bytes.len(),
{
    if bytes.len() == 1 {
        assert(bytes.drop_last() =~= Seq::<u8>::empty());
        assert(bytes.drop_first() =~= Seq::<u8>::empty());
        assert(encoded(bytes) =~= encoded_byte(bytes[0]) + encoded(bytes.drop_first()));
    } else {
        lemma_encoded_front(bytes.drop_last());
        assert(bytes.drop_last().drop_first() =~= bytes.drop_first().drop_last());
        assert(encoded(bytes) =~= encoded_byte(bytes[0]) + encoded(bytes.drop_first()));
    }
}

proof fn lemma_encoded_ascii(bytes: Seq<u8>)
    ensures
        vstd::utf8::is_ascii_chars(encoded(bytes)),
    decreases bytes.len(),
{
    if bytes.len() > 0 {
        lemma_encoded_ascii(bytes.drop_last());
        assert(vstd::utf8::is_ascii_chars(encoded_byte(bytes.last())));
    }
}

spec fn low_bytes(chars: Seq<char>) -> Seq<u8> {
    Seq::new(chars.len(), |i: int| chars[i] as u8)
}

proof fn lemma_decodes_encoded(bytes: Seq<u8>)
    ensures
        decoded_bytes(low_bytes(encoded(bytes))) == Some(bytes),
    decreases bytes.len(),
{
    let coded = low_bytes(encoded(bytes));
    if bytes.len() == 0 {
        assert(coded.len() == 0);
        assert(bytes =~= Seq::<u8>::empty());
    } else {
        let rest = bytes.drop_first();
        let first = bytes[0];
        lemma_encoded_front(bytes);
        lemma_decodes_encoded(rest);
        if is_plain(first) {
            assert(coded[0] == first);
            assert(coded.skip(1) =~= low_bytes(encoded(rest)));
            assert(seq![first] + rest =~= bytes);
        } else {
            let high = (first as int / 16) as u8;
            let low = (first as int % 16) as u8;
            assert(coded[1] == hex_digit(high as int) as u8);
            assert(coded[2] == hex_digit(low as int) as u8);
            assert(hex_number(coded[1]) == Some(high));
            assert(hex_number(coded[2]) == Some(low));
            assert(coded.skip(3) =~= low_bytes(encoded(rest)));
            assert(seq![(high * 16 + low) as u8] + rest =~= bytes);
        }
    }
}

/// Decoding a percent encoding of any text gives that text back.
pub proof fn percent_encoding_round_trip(path: Seq<char>)
    ensures
        decoded(encoded(vstd::utf8::encode_utf8(path))) == Some(path),
{
    let bytes = vstd::utf8::encode_utf8(path);
    lemma_encoded_ascii(bytes);
    lemma_decodes_encoded(bytes);
    vstd::utf8::is_ascii_chars_encode_utf8(encoded(bytes));
    assert(vstd::utf8::encode_utf8(encoded(bytes)) =~= low_bytes(encoded(bytes)));
}

proof fn lemma_scalar_start(c: char)
    ensures
        vstd::utf8::encode_scalar(c as u32).len() > 0,
        c == '/' ==> vstd::utf8::encode_scalar(c as u32) == seq![0x2fu8],
        c != '/' ==> vstd::utf8::encode_scalar(c as u32)[0] != 0x2f,
{
    let scalar = c as u32;
    assert(scalar < 0x80 ==> (scalar & 0x7F) as u8 == scalar as u8) by (bit_vector);
    assert(0xC0u8 | ((scalar >> 6) & 0x1F) as u8 != 0x2f) by (bit_vector);
    assert(0xE0u8 | ((scalar >> 12) & 0x0F) as u8 != 0x2f) by (bit_vector);
    assert(0xF0u8 | ((scalar >> 18) & 0x07) as u8 != 0x2f) by (bit_vector);
}

proof fn lemma_encoding_keeps_slash(path: Seq<char>, platform: Platform)
    ensures
        without_slash(encoded(vstd::utf8::encode_utf8(path)), platform) == encoded(
            vstd::utf8::encode_utf8(without_slash(path, platform)),
        ),
{
    let bytes = vstd::utf8::encode_utf8(path);
    if platform == Platform::Windows && path.len() > 0 {
        let rest = vstd::utf8::encode_utf8(path.drop_first());
        let first = vstd::utf8::encode_scalar(path[0] as u32);
        assert(bytes == first + rest);
        lemma_scalar_start(path[0]);
        lemma_encoded_front(bytes);
        let coded = encoded(bytes);
        if path[0] == '/' {
            assert(bytes.drop_first() =~= rest);
            assert(coded.drop_first() =~= encoded(rest));
        } else {
            assert(bytes[0] == first[0]);
            assert(coded[0] == encoded_byte(bytes[0])[0]);
        }
    }
}

/// The path of the file URI of a path is that path, its backslashes turned
/// into slashes; on Windows without the slash that it may begin with.
pub proof fn file_uri_round_trip(path: Seq<char>, platform: Platform)
    ensures
        uri_path(file_uri(path), platform) == Some(without_slash(with_slashes(path), platform)),
{
    let slashed = with_slashes(path);
    percent_encoding_round_trip(without_slash(slashed, platform));
    lemma_encoding_keeps_slash(slashed, platform);
    let prefix = "file://"@;
    let uri = file_uri(path);
    assert(uri.subrange(0, prefix.len() as int) =~= prefix);
    assert(uri.skip(prefix.len() as int) =~= encoded(vstd::utf8::encode_utf8(slashed)));
}

/// A path without backslashes survives the way into a file URI and back; on Windows
/// one that begins with no slash.
pub proof fn file_uri_round_trip_plain(path: Seq<char>, platform: Platform)
    requires
        forall|i: int| 0 <= i < path.len() ==> path[i] != '\\',
        platform == Platform::Windows && path.len() > 0 ==> path[0] != '/',
    ensures
        uri_path(file_uri(path), platform) == Some(path),
{
    file_uri_round_trip(path, platform);
    assert(with_slashes(path) =~= path);
}

/// A path that begins with a slash does so too where it is encoded.
pub proof fn lemma_encoded_slash(path: Seq<char>)
    requires
        path.len() > 0,
        path[0] == '/',
    ensures
        encoded(vstd::utf8::encode_utf8(path)).len() > 0,
        encoded(vstd::utf8::encode_utf8(path))[0] == '/',
{
    let bytes = vstd::utf8::encode_utf8(path);
    lemma_scalar_start(path[0]);
    assert(bytes[0] == 0x2f);
    lemma_encoded_front(bytes);
}

/// A letter, a digit, a slash and the marks that may stand in a path are written as
/// they are; every other byte is written as a percent sign and two digits in base
/// sixteen, in upper case.
pub proof fn bytes_are_encoded_one_by_one(bytes: Seq<u8>)
    requires
        bytes.len() > 0,
    ensures
        ({
            let b = bytes[0];
            let kept = {
                ||| 0x41 <= b <= 0x5a
                ||| 0x61 <= b <= 0x7a
                ||| 0x30 <= b <= 0x39
                ||| b == 0x2f || b == 0x2d || b == 0x5f || b == 0x2e || b == 0x7e || b == 0x3a
            };
            let digit = |n: int|
                if n < 10 {
                    (0x30 + n) as char
                } else {
                    (0x41 + n - 10) as char
                };
            encoded(bytes) == (if kept {
                seq![b as char]
            } else {
                seq!['%', digit(b as int / 16), digit(b as int % 16)]
            }) + encoded(bytes.drop_first())
        }),
        encoded(Seq::empty()).len() == 0,
{
    lemma_encoded_front(bytes);
    let b = bytes[0];
    if !is_plain(b) {
        assert(encoded_byte(b) =~= seq![
            '%',
            hex_digit(b as int / 16),
            hex_digit(b as int % 16),
        ]);
    }
}

/// A percent sign and two digits in base sixteen, of either case, stand for the byte with
/// that number; every other byte stands for itself; and a percent sign without its digits
/// stands for nothing.
pub proof fn bytes_are_decoded_one_by_one(bytes: Seq<u8>, high: int, low: int)
    requires
        bytes.len() > 0,
    ensures
        ({
            let found = decoded_bytes(bytes);
            let is_digit = |b: u8, n: int|
                {
                    ||| 0 <= n <= 9 && b == 0x30 + n
                    ||| 10 <= n <= 15 && b == 0x41 + n - 10
                    ||| 10 <= n <= 15 && b == 0x61 + n - 10
                };
            let rest = decoded_bytes(bytes.skip(1));
            let behind = decoded_bytes(bytes.skip(3));
            &&& bytes[0] != 0x25 && rest is Some ==> found == Some(seq![bytes[0]] + rest->0)
            &&& bytes[0] != 0x25 && rest is None ==> found is None
            &&& bytes[0] == 0x25 && bytes.len() >= 3 && is_digit(bytes[1], high) && is_digit(
                bytes[2],
                low,
            ) && behind is Some ==> found == Some(seq![(16 * high + low) as u8] + behind->0)
            &&& bytes[0] == 0x25 && bytes.len() < 3 ==> found is None
            &&& bytes[0] == 0x25 && bytes.len() >= 3 && bytes[1] > 0x66 ==> found is None
        }),
        decoded_bytes(Seq::empty()) == Some(Seq::<u8>::empty()),
{
}

/// The path of a URI is what stands behind the scheme, decoded; another scheme has none.
pub proof fn paths_stand_behind_the_scheme(rest: Seq<char>, other: Seq<char>)
    requires
        other.len() > 0,
        other[0] != 'f',
    ensures
        uri_path(seq!['f', 'i', 'l', 'e', ':', '/', '/'] + rest, Platform::Unix) == decoded(rest),
        rest.len() > 0 && rest[0] == '/' ==> uri_path(
            seq!['f', 'i', 'l', 'e', ':', '/', '/'] + rest,
            Platform::Windows,
        ) == decoded(rest.skip(1)),
        uri_path(other, Platform::Unix) is None,
        uri_path(other, Platform::Windows) is None,
{
    reveal_strlit("file://");
    let whole = seq!['f', 'i', 'l', 'e', ':', '/', '/'] + rest;
    assert(whole.subrange(0, 7) =~= "file://"@);
    assert(whole.skip(7) =~= rest);
    if rest.len() > 0 {
        assert(rest.drop_first() =~= rest.skip(1));
    }
    if "file://"@.is_prefix_of(other) {
        assert(other.subrange(0, 7)[0] == other[0]);
        assert("file://"@[0] == 'f');
    }
}

/// Backslashes become slashes, and nothing else changes.
pub proof fn backslashes_become_slashes(path: Seq<char>, i: int)
    requires
        0 <= i < path.len(),
    ensures
        with_slashes(path).len() == path.len(),
        with_slashes(path)[i] == if path[i] == '\\' {
            '/'
        } else {
            path[i]
        },
        file_uri(path) == seq!['f', 'i', 'l', 'e', ':', '/', '/'] + encoded(
            vstd::utf8::encode_utf8(with_slashes(path)),
        ),
{
    reveal_strlit("file://");
    assert("file://"@ =~= seq!['f', 'i', 'l', 'e', ':', '/', '/']);
}

} // verus!
