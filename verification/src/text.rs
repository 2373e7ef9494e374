//! Text as sequences of characters: the small set of string operations the
//! rest of the crate is written with.

use vstd::prelude::*;

verus! {

broadcast use vstd::utf8::group_utf8_lib;

/// `String::push` appends one character to the end of the text.
pub assume_specification[ String::push ](s: &mut String, c: char)
    ensures
        final(s)@ == old(s)@.push(c),
;

/// `char::from_u32` yields the character with the given code point, and
/// nothing for a surrogate or a value past the last code point.
pub assume_specification[ char::from_u32 ](code: u32) -> (c: Option<char>)
    ensures
        c == (if vstd::utf8::is_scalar(code) {
            Some(code as char)
        } else {
            None
        }),
;

/// The text that `str::to_lowercase` gives for a text: Unicode lower case,
/// which may have another length than the text itself.
pub uninterp spec fn lowercase(text: Seq<char>) -> Seq<char>;

/// Calls `str::to_lowercase`; the result is a function of the text alone.
#[verifier::external_body]
pub(crate) fn to_lowercase(text: &str) -> (lower: String)
    ensures
        lower@ == lowercase(text@),
{
    text.to_lowercase()
}

/// Calls `String::from_utf8`: bytes that are valid UTF-8 become the text they
/// encode, any other bytes are refused.
#[verifier::external_body]
pub(crate) fn utf8_text(bytes: Vec<u8>) -> (text: Option<String>)
    ensures
        text is Some <==> vstd::utf8::valid_utf8(bytes@),
        text matches Some(t) ==> vstd::utf8::encode_utf8(t@) == bytes@,
{
    String::from_utf8(bytes).ok()
}

/// The text that `String::from_utf8_lossy` gives for bytes: what is not UTF-8 in
/// them is replaced.
pub uninterp spec fn lossy(bytes: Seq<u8>) -> Seq<char>;

/// Calls `String::from_utf8_lossy`. The result is a function of the bytes, and
/// the text that they encode where they are valid UTF-8.
#[verifier::external_body]
pub(crate) fn lossy_text(bytes: &[u8]) -> (text: String)
    ensures
        text@ == lossy(bytes@),
        vstd::utf8::valid_utf8(bytes@) ==> vstd::utf8::encode_utf8(text@) == bytes@,
{
    String::from_utf8_lossy(bytes).into_owned()
}

/// The characters with the Unicode property White_Space.
pub open spec fn is_whitespace(c: char) -> bool {
    let code = c as u32;
    ||| 0x09 <= code <= 0x0d
    ||| code == 0x20
    ||| code == 0x85
    ||| code == 0xa0
    ||| code == 0x1680
    ||| 0x2000 <= code <= 0x200a
    ||| code == 0x2028
    ||| code == 0x2029
    ||| code == 0x202f
    ||| code == 0x205f
    ||| code == 0x3000
}

/// The characters of the Unicode general category Cc.
pub open spec fn is_control(c: char) -> bool {
    let code = c as u32;
    code < 0x20 || 0x7f <= code <= 0x9f
}

pub fn whitespace(c: char) -> (yes: bool)
    ensures
        yes == is_whitespace(c),
{
    let code = c as u32;
    (0x09 <= code && code <= 0x0d) || code == 0x20 || code == 0x85 || code == 0xa0 || code == 0x1680
        || (0x2000 <= code && code <= 0x200a) || code == 0x2028 || code == 0x2029 || code == 0x202f
        || code == 0x205f || code == 0x3000
}

pub fn control(c: char) -> (yes: bool)
    ensures
        yes == is_control(c),
{
    let code = c as u32;
    code < 0x20 || (0x7f <= code && code <= 0x9f)
}

/// All characters of a text, in order.
pub fn chars_of(text: &str) -> (chars: Vec<char>)
    ensures
        chars@ == text@,
{
    let mut chars: Vec<char> = Vec::new();
    for c in it: text.chars()
        invariant
            it.seq() == text@,
            chars@ == text@.take(it.index()),
    {
        chars.push(c);
    }
    chars
}

/// The text made of the characters from `start` up to, not including, `end`.
pub fn slice_of(chars: &Vec<char>, start: usize, end: usize) -> (text: String)
    requires
        start <= end <= chars@.len(),
    ensures
        text@ == chars@.subrange(start as int, end as int),
{
    let mut text = String::new();
    for i in start..end
        invariant
            start <= i <= end <= chars@.len(),
            text@ == chars@.subrange(start as int, i as int),
    {
        text.push(chars[i]);
    }
    text
}

/// The number of characters of a text.
pub fn count(text: &str) -> (n: usize)
    ensures
        n == text@.len(),
{
    text.unicode_len()
}

/// The bytes of a text in UTF-8.
pub fn bytes_of(text: &str) -> (bytes: Vec<u8>)
    ensures
        bytes@ == vstd::utf8::encode_utf8(text@),
{
    text.as_bytes_vec()
}

pub fn same_bytes(a: &[u8], b: &[u8]) -> (same: bool)
    ensures
        same == (a@ == b@),
{
    if a.len() != b.len() {
        return false;
    }
    for i in 0..a.len()
        invariant
            a@.len() == b@.len(),
            forall|j: int| 0 <= j < i ==> a@[j] == b@[j],
    {
        if a[i] != b[i] {
            return false;
        }
    }
    assert(a@ =~= b@);
    true
}

/// Whether two texts hold the same characters.
pub fn same(a: &str, b: &str) -> (same: bool)
    ensures
        same == (a@ == b@),
{
    let same = same_bytes(a.as_bytes(), b.as_bytes());
    proof {
        vstd::utf8::encode_utf8_decode_utf8(a@);
        vstd::utf8::encode_utf8_decode_utf8(b@);
    }
    same
}

pub open spec fn trim_start(text: Seq<char>) -> Seq<char>
    decreases text.len(),
{
    if text.len() > 0 && is_whitespace(text[0]) {
        trim_start(text.drop_first())
    } else {
        text
    }
}

pub open spec fn trim_end(text: Seq<char>) -> Seq<char>
    decreases text.len(),
{
    if text.len() > 0 && is_whitespace(text.last()) {
        trim_end(text.drop_last())
    } else {
        text
    }
}

/// The text without the white space at its two ends.
pub open spec fn trimmed(text: Seq<char>) -> Seq<char> {
    trim_end(trim_start(text))
}

pub fn trim_start_of(text: &str) -> (out: String)
    ensures
        out@ == trim_start(text@),
{
    let chars = chars_of(text);
    let mut start: usize = 0;
    proof {
        assert(text@.skip(0) =~= text@);
    }
    while start < chars.len() && whitespace(chars[start])
        invariant
            chars@ == text@,
            start <= chars@.len(),
            trim_start(text@) == trim_start(text@.skip(start as int)),
        decreases chars@.len() - start,
    {
        proof {
            assert(text@.skip(start as int).drop_first() =~= text@.skip(start + 1));
        }
        start = start + 1;
    }
    proof {
        assert(text@.skip(start as int) =~= chars@.subrange(start as int, chars@.len() as int));
    }
    slice_of(&chars, start, chars.len())
}

pub fn trim(text: &str) -> (out: String)
    ensures
        out@ == trimmed(text@),
{
    let head = trim_start_of(text);
    let chars = chars_of(&head);
    let mut end: usize = chars.len();
    proof {
        assert(head@.take(end as int) =~= head@);
    }
    while end > 0 && whitespace(chars[end - 1])
        invariant
            chars@ == head@,
            end <= chars@.len(),
            trim_end(head@) == trim_end(head@.take(end as int)),
        decreases end,
    {
        proof {
            assert(head@.take(end as int).drop_last() =~= head@.take(end - 1));
        }
        end = end - 1;
    }
    proof {
        assert(head@.take(end as int) =~= chars@.subrange(0, end as int));
    }
    slice_of(&chars, 0, end)
}

pub open spec fn digit(n: nat) -> char {
    ('0' as u32 + n) as char
}

/// The decimal notation of a number.
pub open spec fn decimal(n: nat) -> Seq<char>
    decreases n,
{
    if n < 10 {
        seq![digit(n)]
    } else {
        decimal(n / 10).push(digit(n % 10))
    }
}

fn digit_char(n: u8) -> (c: char)
    requires
        n < 10,
    ensures
        c == digit(n as nat),
{
    (48u8 + n) as char
}

/// Appends the decimal notation of `n`.
pub fn push_decimal(text: &mut String, n: u64)
    ensures
        final(text)@ == old(text)@ + decimal(n as nat),
    decreases n,
{
    if n < 10 {
        text.push(digit_char(n as u8));
    } else {
        push_decimal(text, n / 10);
        text.push(digit_char((n % 10) as u8));
    }
    proof {
        assert(text@ =~= old(text)@ + decimal(n as nat));
    }
}

/// Appends the decimal notation of a long number.
pub fn push_long_decimal(text: &mut String, n: u128)
    ensures
        final(text)@ == old(text)@ + decimal(n as nat),
    decreases n,
{
    if n < 10 {
        text.push(digit_char(n as u8));
    } else {
        push_long_decimal(text, n / 10);
        text.push(digit_char((n % 10) as u8));
    }
    proof {
        assert(text@ =~= old(text)@ + decimal(n as nat));
    }
}

pub fn decimal_of(n: u64) -> (text: String)
    ensures
        text@ == decimal(n as nat),
{
    let mut text = String::new();
    push_decimal(&mut text, n);
    proof {
        assert(text@ =~= decimal(n as nat));
    }
    text
}

/// The number `n` in decimal notation, with leading zeros up to `width` characters.
pub open spec fn zero_padded(n: nat, width: nat) -> Seq<char> {
    let digits = decimal(n);
    if digits.len() < width {
        Seq::new((width - digits.len()) as nat, |i: int| '0') + digits
    } else {
        digits
    }
}

pub fn push_zero_padded(text: &mut String, n: u64, width: usize)
    ensures
        final(text)@ == old(text)@ + zero_padded(n as nat, width as nat),
{
    let digits = decimal_of(n);
    let len = count(&digits);
    let mut i: usize = len;
    let ghost before = text@;
    while i < width
        invariant
            len <= i,
            len < width ==> i <= width,
            width <= len ==> i == len,
            text@ == before + Seq::new((i - len) as nat, |j: int| '0'),
        decreases width - i,
    {
        text.push('0');
        proof {
            assert(text@ =~= before + Seq::new((i + 1 - len) as nat, |j: int| '0'));
        }
        i = i + 1;
    }
    text.append(&digits);
    proof {
        assert(text@ =~= before + zero_padded(n as nat, width as nat));
    }
}

/// The contents of a list of strings.
pub open spec fn texts(strings: Seq<String>) -> Seq<Seq<char>> {
    Seq::new(strings.len(), |i: int| strings[i]@)
}

/// The contents of an optional string.
pub open spec fn maybe(text: Option<String>) -> Option<Seq<char>> {
    match text {
        Some(t) => Some(t@),
        None => None,
    }
}

/// Copies of all strings of a list, in order.
pub fn copy_all(strings: &Vec<String>) -> (copied: Vec<String>)
    ensures
        texts(copied@) == texts(strings@),
{
    let mut copied: Vec<String> = Vec::new();
    for i in 0..strings.len()
        invariant
            copied@.len() == i,
            forall|j: int| 0 <= j < i ==> copied@[j]@ == strings@[j]@,
    {
        copied.push(strings[i].clone());
    }
    assert(texts(copied@) =~= texts(strings@));
    copied
}

/// The number of characters before the first `c`, or of all characters where
/// `c` does not occur.
pub open spec fn until(text: Seq<char>, c: char) -> nat
    decreases text.len(),
{
    if text.len() == 0 || text[0] == c {
        0
    } else {
        1 + until(text.drop_first(), c)
    }
}

pub proof fn lemma_until(text: Seq<char>, c: char)
    ensures
        until(text, c) <= text.len(),
        until(text, c) < text.len() ==> text[until(text, c) as int] == c,
        forall|i: int| 0 <= i < until(text, c) ==> text[i] != c,
    decreases text.len(),
{
    if text.len() > 0 && text[0] != c {
        lemma_until(text.drop_first(), c);
        assert forall|i: int| 0 <= i < until(text, c) implies text[i] != c by {
            if i > 0 {
                assert(text[i] == text.drop_first()[i - 1]);
            }
        }
    }
}

/// The position from `start` on at which `c` first occurs, or the end.
pub fn position_of(chars: &Vec<char>, c: char, start: usize) -> (at: usize)
    requires
        start <= chars@.len(),
    ensures
        at == start + until(chars@.skip(start as int), c),
        start <= at <= chars@.len(),
        at < chars@.len() ==> chars@[at as int] == c,
{
    let mut at: usize = start;
    while at < chars.len() && chars[at] != c
        invariant
            start <= at <= chars@.len(),
            start + until(chars@.skip(start as int), c) == at + until(chars@.skip(at as int), c),
        decreases chars@.len() - at,
    {
        proof {
            assert(chars@.skip(at as int).drop_first() =~= chars@.skip(at + 1));
        }
        at = at + 1;
    }
    at
}

/// The text without one carriage return at its end.
pub open spec fn without_return(line: Seq<char>) -> Seq<char> {
    if line.len() > 0 && line.last() == '\r' {
        line.drop_last()
    } else {
        line
    }
}

/// The lines of a text. A line ends at a line feed, which with a carriage
/// return before it is not part of the line; the last line may lack it.
pub open spec fn lines(text: Seq<char>) -> Seq<Seq<char>>
    decreases text.len(),
{
    if text.len() == 0 {
        Seq::empty()
    } else {
        let end = until(text, '\n');
        if end >= text.len() {
            seq![text]
        } else {
            seq![without_return(text.take(end as int))] + lines(text.skip(end as int + 1))
        }
    }
}

pub fn lines_of(text: &str) -> (out: Vec<String>)
    ensures
        texts(out@) == lines(text@),
{
    let chars = chars_of(text);
    let mut out: Vec<String> = Vec::new();
    let mut start: usize = 0;
    proof {
        assert(chars@.skip(0) =~= text@);
        assert(texts(out@) + lines(chars@.skip(0)) =~= lines(text@));
    }
    while start < chars.len()
        invariant
            start <= chars@.len(),
            texts(out@) + lines(chars@.skip(start as int)) == lines(text@),
        decreases chars@.len() - start,
    {
        let end = position_of(&chars, '\n', start);
        let ghost rest = chars@.skip(start as int);
        let ghost before = out@;
        if end >= chars.len() {
            let line = slice_of(&chars, start, end);
            out.push(line);
            proof {
                assert(line@ =~= rest);
                assert(texts(out@) =~= texts(before) + seq![rest]);
                assert(lines(chars@.skip(end as int)) =~= Seq::<Seq<char>>::empty());
                assert(texts(out@) + lines(chars@.skip(end as int)) =~= texts(out@));
            }
            start = end;
        } else {
            let stop: usize = if end > start && chars[end - 1] == '\r' {
                end - 1
            } else {
                end
            };
            let line = slice_of(&chars, start, stop);
            out.push(line);
            proof {
                assert(rest.take(end - start) =~= chars@.subrange(start as int, end as int));
                assert(line@ =~= without_return(rest.take(end - start)));
                assert(texts(out@) =~= texts(before) + seq![line@]);
                assert(rest.skip(end - start + 1) =~= chars@.skip(end + 1));
                assert(texts(before) + (seq![line@] + lines(chars@.skip(end + 1))) =~= texts(out@)
                    + lines(chars@.skip(end + 1)));
            }
            start = end + 1;
        }
    }
    proof {
        assert(texts(out@) + lines(chars@.skip(start as int)) =~= texts(out@));
    }
    out
}

/// The line with the given number, counted from zero.
pub open spec fn line_at(text: Seq<char>, line: nat) -> Option<Seq<char>> {
    if line < lines(text).len() {
        Some(lines(text)[line as int])
    } else {
        None
    }
}

pub fn nth_line(text: &str, line: usize) -> (found: Option<String>)
    ensures
        maybe(found) == line_at(text@, line as nat),
{
    let all = lines_of(text);
    assert(all@.len() == texts(all@).len());
    if line < all.len() {
        assert(texts(all@)[line as int] == all@[line as int]@);
        Some(all[line].clone())
    } else {
        None
    }
}

/// The number of characters before the first white space.
pub open spec fn word_len(text: Seq<char>) -> nat
    decreases text.len(),
{
    if text.len() == 0 || is_whitespace(text[0]) {
        0
    } else {
        1 + word_len(text.drop_first())
    }
}

pub proof fn lemma_trim_start_len(text: Seq<char>)
    ensures
        trim_start(text).len() <= text.len(),
        trim_start(text).len() > 0 ==> !is_whitespace(trim_start(text)[0]),
    decreases text.len(),
{
    if text.len() > 0 && is_whitespace(text[0]) {
        lemma_trim_start_len(text.drop_first());
    }
}

pub proof fn lemma_word_len(text: Seq<char>)
    ensures
        word_len(text) <= text.len(),
    decreases text.len(),
{
    if text.len() > 0 && !is_whitespace(text[0]) {
        lemma_word_len(text.drop_first());
    }
}

/// The words of a text: what stands between its white space.
pub open spec fn words(text: Seq<char>) -> Seq<Seq<char>>
    decreases text.len(),
{
    let rest = trim_start(text);
    if rest.len() == 0 {
        Seq::empty()
    } else {
        proof {
            lemma_trim_start_len(text);
            lemma_word_len(rest);
        }
        seq![rest.take(word_len(rest) as int)] + words(rest.skip(word_len(rest) as int))
    }
}

pub fn words_of(text: &str) -> (out: Vec<String>)
    ensures
        texts(out@) == words(text@),
{
    let chars = chars_of(text);
    let mut out: Vec<String> = Vec::new();
    let mut start: usize = 0;
    proof {
        assert(chars@.skip(0) =~= text@);
        assert(texts(out@) + words(chars@.skip(0)) =~= words(text@));
    }
    loop
        invariant
            start <= chars@.len(),
            texts(out@) + words(chars@.skip(start as int)) == words(text@),
        ensures
            texts(out@) == words(text@),
        decreases chars@.len() - start,
    {
        let ghost rest = chars@.skip(start as int);
        let ghost from = start;
        while start < chars.len() && whitespace(chars[start])
            invariant
                from <= start <= chars@.len(),
                trim_start(rest) == trim_start(chars@.skip(start as int)),
            decreases chars@.len() - start,
        {
            proof {
                assert(chars@.skip(start as int).drop_first() =~= chars@.skip(start + 1));
            }
            start = start + 1;
        }
        let ghost word_and_rest = chars@.skip(start as int);
        assert(trim_start(word_and_rest) == word_and_rest);
        if start >= chars.len() {
            assert(texts(out@) + words(rest) =~= texts(out@));
            break;
        }
        let mut end: usize = start;
        while end < chars.len() && !whitespace(chars[end])
            invariant
                start <= end <= chars@.len(),
                word_and_rest == chars@.skip(start as int),
                word_len(word_and_rest) == end - start + word_len(chars@.skip(end as int)),
            decreases chars@.len() - end,
        {
            proof {
                assert(chars@.skip(end as int).drop_first() =~= chars@.skip(end + 1));
            }
            end = end + 1;
        }
        let word = slice_of(&chars, start, end);
        let ghost before = out@;
        out.push(word);
        proof {
            assert(word@ =~= word_and_rest.take(end - start));
            assert(word_and_rest.skip(end - start) =~= chars@.skip(end as int));
            assert(texts(out@) =~= texts(before) + seq![word@]);
            assert(texts(before) + (seq![word@] + words(chars@.skip(end as int))) =~= texts(out@)
                + words(chars@.skip(end as int)));
        }
        start = end;
    }
    out
}

/// What follows `prefix` in a text that starts with it.
pub open spec fn after_prefix(text: Seq<char>, prefix: Seq<char>) -> Option<Seq<char>> {
    if prefix.is_prefix_of(text) {
        Some(text.skip(prefix.len() as int))
    } else {
        None
    }
}

pub fn strip_prefix(text: &str, prefix: &str) -> (rest: Option<String>)
    ensures
        maybe(rest) == after_prefix(text@, prefix@),
{
    let chars = chars_of(text);
    let head = chars_of(prefix);
    if chars.len() < head.len() {
        return None;
    }
    for i in 0..head.len()
        invariant
            chars@ == text@,
            head@ == prefix@,
            head@.len() <= chars@.len(),
            forall|j: int| 0 <= j < i ==> text@[j] == prefix@[j],
    {
        if chars[i] != head[i] {
            assert(text@.subrange(0, prefix@.len() as int)[i as int] != prefix@[i as int]);
            return None;
        }
    }
    proof {
        assert(text@.subrange(0, prefix@.len() as int) =~= prefix@);
        assert(chars@.subrange(head@.len() as int, chars@.len() as int) =~= text@.skip(
            prefix@.len() as int,
        ));
    }
    Some(slice_of(&chars, head.len(), chars.len()))
}

/// The texts one after the other, with `separator` between them.
pub open spec fn joined(parts: Seq<Seq<char>>, separator: Seq<char>) -> Seq<char>
    decreases parts.len(),
{
    if parts.len() == 0 {
        Seq::empty()
    } else if parts.len() == 1 {
        parts[0]
    } else {
        joined(parts.drop_last(), separator) + separator + parts.last()
    }
}

pub fn join(parts: &Vec<String>, separator: &str) -> (out: String)
    ensures
        out@ == joined(texts(parts@), separator@),
{
    let mut out = String::new();
    for i in 0..parts.len()
        invariant
            out@ == joined(texts(parts@).take(i as int), separator@),
    {
        let ghost before = texts(parts@).take(i as int);
        let ghost after = texts(parts@).take(i + 1);
        assert(after.drop_last() =~= before);
        if i > 0 {
            out.append(separator);
        }
        out.append(&parts[i]);
        proof {
            if i == 0 {
                assert(out@ =~= parts@[0]@);
            }
        }
    }
    proof {
        assert(texts(parts@).take(parts@.len() as int) =~= texts(parts@));
    }
    out
}

/// Whether a text holds nothing but white space.
pub fn is_blank(text: &str) -> (blank: bool)
    ensures
        blank == (trimmed(text@).len() == 0),
{
    let inner = trim(text);
    inner.as_str().is_empty()
}

/// The character in lower case, where it is an ASCII letter.
pub open spec fn ascii_lower(c: char) -> char {
    if 0x41 <= c as u32 <= 0x5a {
        (c as u32 + 32) as char
    } else {
        c
    }
}

pub open spec fn ascii_lowercase(text: Seq<char>) -> Seq<char> {
    text.map_values(|c: char| ascii_lower(c))
}

pub fn to_ascii_lowercase(text: &str) -> (lower: String)
    ensures
        lower@ == ascii_lowercase(text@),
{
    let chars = chars_of(text);
    let mut lower = String::new();
    for i in 0..chars.len()
        invariant
            chars@ == text@,
            lower@ == ascii_lowercase(text@.take(i as int)),
    {
        let c = chars[i];
        let ghost before = lower@;
        let code = c as u32;
        let low: char = if 0x41 <= code && code <= 0x5a {
            (code as u8 + 32) as char
        } else {
            c
        };
        lower.push(low);
        proof {
            assert(low == ascii_lower(c));
            assert(before.len() == i);
            assert(lower@ =~= ascii_lowercase(text@.take(i + 1)));
        }
    }
    proof {
        assert(text@.take(text@.len() as int) =~= text@);
    }
    lower
}

pub open spec fn is_digit(c: char) -> bool {
    0x30 <= c as u32 <= 0x39
}

/// The number that a sequence of decimal digits stands for.
pub open spec fn digits_value(text: Seq<char>) -> Option<nat>
    decreases text.len(),
{
    if text.len() == 0 {
        Some(0)
    } else {
        match digits_value(text.drop_last()) {
            Some(n) => if is_digit(text.last()) {
                Some((n * 10 + (text.last() as u32 - 0x30)) as nat)
            } else {
                None
            },
            None => None,
        }
    }
}

/// The number that a text denotes: one or more digits, perhaps behind a plus
/// sign, of a value that fits the machine's sizes.
pub open spec fn size_value(text: Seq<char>) -> Option<nat> {
    let digits = if text.len() > 0 && text[0] == '+' {
        text.drop_first()
    } else {
        text
    };
    if digits.len() == 0 {
        None
    } else {
        match digits_value(digits) {
            Some(n) => if n <= usize::MAX {
                Some(n)
            } else {
                None
            },
            None => None,
        }
    }
}

proof fn lemma_digits_value_prefix(text: Seq<char>, i: int)
    requires
        0 <= i <= text.len(),
        digits_value(text) is Some,
    ensures
        digits_value(text.take(i)) is Some,
        digits_value(text.take(i))->0 <= digits_value(text)->0,
    decreases text.len(),
{
    if i == text.len() {
        assert(text.take(i) =~= text);
    } else {
        lemma_digits_value_prefix(text.drop_last(), i);
        assert(text.drop_last().take(i) =~= text.take(i));
    }
}

pub fn parse_size(text: &str) -> (value: Option<usize>)
    ensures
        value is Some <==> size_value(text@) is Some,
        value matches Some(n) ==> size_value(text@) == Some(n as nat),
{
    let chars = chars_of(text);
    let start: usize = if chars.len() > 0 && chars[0] == '+' {
        1
    } else {
        0
    };
    let ghost digits = text@.skip(start as int);
    proof {
        if start == 0 {
            assert(digits =~= text@);
        } else {
            assert(digits =~= text@.drop_first());
        }
        assert(digits.take(0) =~= Seq::<char>::empty());
    }
    if start == chars.len() {
        return None;
    }
    let mut value: usize = 0;
    for i in start..chars.len()
        invariant
            chars@ == text@,
            start <= i <= chars@.len(),
            digits == text@.skip(start as int),
            digits.len() > 0,
            digits == (if text@.len() > 0 && text@[0] == '+' {
                text@.drop_first()
            } else {
                text@
            }),
            digits_value(digits.take(i - start)) == Some(value as nat),
    {
        let code = chars[i] as u32;
        let ghost upto = digits.take(i - start + 1);
        proof {
            assert(upto.drop_last() =~= digits.take(i - start));
            assert(upto.last() == text@[i as int]);
            if digits_value(digits) is Some {
                lemma_digits_value_prefix(digits, i - start + 1);
            }
        }
        if code < 0x30 || code > 0x39 {
            return None;
        }
        let digit = (code - 0x30) as usize;
        match value.checked_mul(10) {
            Some(tens) => match tens.checked_add(digit) {
                Some(next) => {
                    value = next;
                },
                None => {
                    return None;
                },
            },
            None => {
                return None;
            },
        }
    }
    proof {
        assert(digits.take(digits.len() as int) =~= digits);
    }
    Some(value)
}

/// Decimal notation consists of digits and denotes the number it was made of.
pub proof fn lemma_decimal(n: nat)
    ensures
        decimal(n).len() > 0,
        forall|i: int| 0 <= i < decimal(n).len() ==> is_digit(#[trigger] decimal(n)[i]),
        digits_value(decimal(n)) == Some(n),
    decreases n,
{
    if n < 10 {
        let text = seq![digit(n)];
        assert(text.drop_last() =~= Seq::<char>::empty());
        assert(digits_value(text.drop_last()) == Some(0nat));
    } else {
        lemma_decimal(n / 10);
        let text = decimal(n);
        assert(text.drop_last() =~= decimal(n / 10));
        assert forall|i: int| 0 <= i < text.len() implies is_digit(#[trigger] text[i]) by {
            if i < text.len() - 1 {
                assert(text[i] == decimal(n / 10)[i]);
            }
        }
    }
}

/// A text that begins and ends with other characters than white space is
/// trimmed already.
pub proof fn lemma_trimmed_already(text: Seq<char>)
    requires
        text.len() > 0,
        !is_whitespace(text[0]),
        !is_whitespace(text.last()),
    ensures
        trimmed(text) == text,
{
}

/// A number is written with the digits that it has: the last one is its rest
/// modulo ten, and what stands before it is a tenth of the number.
pub proof fn decimals_are_written_digit_by_digit(n: nat)
    ensures
        decimal(n).len() > 0,
        decimal(n).last() as int == 0x30 + n % 10,
        n < 10 ==> decimal(n).len() == 1,
        n >= 10 ==> decimal(n).drop_last() == decimal(n / 10),
{
    if n >= 10 {
        assert(decimal(n).drop_last() =~= decimal(n / 10));
    }
}

/// A text is read line by line: what stands before the first line feed is the first
/// line, without the carriage return at its end, and the lines behind it follow. A
/// text without one is a line, unless it is empty.
pub proof fn lines_end_at_line_feeds(first: Seq<char>, rest: Seq<char>)
    requires
        !first.contains('\n'),
    ensures
        lines(first + seq!['\n'] + rest) == seq![
            if first.len() > 0 && first[first.len() - 1] == '\r' {
                first.take(first.len() - 1)
            } else {
                first
            },
        ] + lines(rest),
        first.len() > 0 ==> lines(first) == seq![first],
        lines(Seq::empty()).len() == 0,
{
    let whole = first + seq!['\n'] + rest;
    lemma_until(whole, '\n');
    lemma_until(first, '\n');
    let end = until(whole, '\n') as int;
    assert(whole[first.len() as int] == '\n');
    if end < first.len() {
        assert(first[end] == whole[end]);
        assert(first.contains('\n'));
    }
    assert(end == first.len());
    assert(whole.take(end) =~= first);
    assert(whole.skip(end + 1) =~= rest);
    if until(first, '\n') < first.len() {
        assert(first.contains(first[until(first, '\n') as int]));
    }
    if first.len() > 0 {
        assert(first.drop_last() =~= first.take(first.len() - 1));
    }
}

/// Trimming takes the blanks off both ends of a text and nothing else.
pub proof fn trimming_takes_blanks_off_the_ends(text: Seq<char>) -> (ends: (int, int))
    ensures
        0 <= ends.0 <= ends.1 <= text.len(),
        trimmed(text) == text.subrange(ends.0, ends.1),
        forall|i: int| 0 <= i < ends.0 ==> is_whitespace(#[trigger] text[i]),
        forall|i: int| ends.1 <= i < text.len() ==> is_whitespace(#[trigger] text[i]),
        ends.0 < ends.1 ==> !is_whitespace(text[ends.0]) && !is_whitespace(text[ends.1 - 1]),
        is_whitespace(' ') && is_whitespace('\t') && is_whitespace('\n') && is_whitespace('\r'),
        forall|c: char| '!' <= c <= '~' ==> !is_whitespace(c),
{
    let start = lemma_trim_start(text);
    let rest = text.skip(start);
    let end = lemma_trim_end(rest);
    assert(trimmed(text) == trim_end(trim_start(text)));
    assert(rest.take(end) =~= text.subrange(start, start + end));
    assert forall|i: int| start + end <= i < text.len() implies is_whitespace(
        #[trigger] text[i],
    ) by {
        assert(rest[i - start] == text[i]);
    }
    if end > 0 {
        assert(rest[end - 1] == text[start + end - 1]);
        assert(rest[0] == text[start]);
    }
    (start, start + end)
}

proof fn lemma_trim_start(text: Seq<char>) -> (start: int)
    ensures
        0 <= start <= text.len(),
        trim_start(text) == text.skip(start),
        forall|i: int| 0 <= i < start ==> is_whitespace(#[trigger] text[i]),
        start < text.len() ==> !is_whitespace(text[start]),
    decreases text.len(),
{
    if text.len() > 0 && is_whitespace(text[0]) {
        let rest = text.drop_first();
        let inner = lemma_trim_start(rest);
        assert(rest.skip(inner) =~= text.skip(inner + 1));
        assert forall|i: int| 0 <= i < inner + 1 implies is_whitespace(#[trigger] text[i]) by {
            if i > 0 {
                assert(rest[i - 1] == text[i]);
            }
        }
        inner + 1
    } else {
        assert(text.skip(0) =~= text);
        0
    }
}

proof fn lemma_trim_end(text: Seq<char>) -> (end: int)
    ensures
        0 <= end <= text.len(),
        trim_end(text) == text.take(end),
        forall|i: int| end <= i < text.len() ==> is_whitespace(#[trigger] text[i]),
        end > 0 ==> !is_whitespace(text[end - 1]),
    decreases text.len(),
{
    if text.len() > 0 && is_whitespace(text.last()) {
        let rest = text.drop_last();
        let inner = lemma_trim_end(rest);
        assert(rest.take(inner) =~= text.take(inner));
        assert forall|i: int| inner <= i < text.len() implies is_whitespace(#[trigger] text[i]) by {
            if i < text.len() - 1 {
                assert(rest[i] == text[i]);
            }
        }
        inner
    } else {
        assert(text.take(text.len() as int) =~= text);
        text.len() as int
    }
}

/// A number is padded with zeros in front of its digits, up to a width.
pub proof fn numbers_are_padded_with_zeros(n: nat, width: nat)
    ensures
        ({
            let padded = zero_padded(n, width);
            let digits = decimal(n);
            &&& padded.len() == if digits.len() < width {
                width
            } else {
                digits.len()
            }
            &&& padded.skip(padded.len() - digits.len()) == digits
            &&& forall|i: int| 0 <= i < padded.len() - digits.len() ==> #[trigger] padded[i] == '0'
        }),
{
    let padded = zero_padded(n, width);
    let digits = decimal(n);
    assert(padded.skip(padded.len() - digits.len()) =~= digits);
}

/// The words of a text stand between blanks: a word without blanks in front of a blank
/// is the first, and those behind the blank follow.
pub proof fn words_stand_between_blanks(word: Seq<char>, blank: char, rest: Seq<char>)
    requires
        word.len() > 0,
        forall|i: int| 0 <= i < word.len() ==> !is_whitespace(#[trigger] word[i]),
        is_whitespace(blank),
    ensures
        words(word + seq![blank] + rest) == seq![word] + words(rest),
        words(word) == seq![word],
        words(seq![blank] + rest) == words(rest),
        words(Seq::empty()).len() == 0,
{
    let whole = word + seq![blank] + rest;
    lemma_word_ends(word, seq![blank] + rest);
    assert(word + (seq![blank] + rest) =~= whole);
    lemma_word_ends(word, Seq::empty());
    assert(word + Seq::<char>::empty() =~= word);
    assert(trim_start(whole) == whole);
    assert(trim_start(word) == word);
    assert(whole.take(word.len() as int) =~= word);
    assert(word.take(word.len() as int) =~= word);
    let behind = whole.skip(word.len() as int);
    assert(behind =~= seq![blank] + rest);
    assert((seq![blank] + rest).drop_first() =~= rest);
    assert(trim_start(seq![blank] + rest) == trim_start(rest));
    assert(words(seq![blank] + rest) == words(rest));
    assert(word.skip(word.len() as int) =~= Seq::<char>::empty());
    assert(words(Seq::<char>::empty()).len() == 0);
    assert(seq![word] + words(Seq::<char>::empty()) =~= seq![word]);
}

proof fn lemma_word_ends(word: Seq<char>, rest: Seq<char>)
    requires
        forall|i: int| 0 <= i < word.len() ==> !is_whitespace(#[trigger] word[i]),
        rest.len() == 0 || is_whitespace(rest[0]),
    ensures
        word_len(word + rest) == word.len(),
    decreases word.len(),
{
    if word.len() > 0 {
        assert(!is_whitespace(word[0]));
        let shorter = word.drop_first();
        assert forall|i: int| 0 <= i < shorter.len() implies !is_whitespace(
            #[trigger] shorter[i],
        ) by {
            assert(shorter[i] == word[i + 1]);
        }
        lemma_word_ends(shorter, rest);
        assert((word + rest).drop_first() =~= shorter + rest);
    } else {
        assert(word + rest =~= rest);
    }
}

/// Lower case letters are those of the alphabet, and all other characters stay.
pub proof fn letters_are_put_in_lower_case(text: Seq<char>, i: int)
    requires
        0 <= i < text.len(),
    ensures
        ascii_lowercase(text).len() == text.len(),
        'A' as u32 <= text[i] as u32 <= 'Z' as u32 ==> ascii_lowercase(text)[i] as u32
            == text[i] as u32 + 32,
        'A' as u32 > text[i] as u32 || text[i] as u32 > 'Z' as u32 ==> ascii_lowercase(text)[i]
            == text[i],
{
}

/// What stands behind a prefix is the rest of the text; a text that does not begin with
/// the prefix has none.
pub proof fn rests_stand_behind_their_prefix(prefix: Seq<char>, rest: Seq<char>, other: Seq<char>)
    ensures
        after_prefix(prefix + rest, prefix) == Some(rest),
        other.len() < prefix.len() ==> after_prefix(other, prefix) is None,
        prefix.len() > 0 && other.len() > 0 && other[0] != prefix[0] ==> after_prefix(other, prefix)
            is None,
{
    assert((prefix + rest).subrange(0, prefix.len() as int) =~= prefix);
    assert((prefix + rest).skip(prefix.len() as int) =~= rest);
    if prefix.len() > 0 && other.len() > 0 && prefix.is_prefix_of(other) {
        assert(other.subrange(0, prefix.len() as int)[0] == other[0]);
    }
}

/// Parts are joined with the separator between them, and nowhere else.
pub proof fn parts_are_joined_by_the_separator(
    parts: Seq<Seq<char>>,
    part: Seq<char>,
    separator: Seq<char>,
)
    ensures
        joined(Seq::empty(), separator).len() == 0,
        joined(seq![part], separator) == part,
        parts.len() > 0 ==> joined(parts.push(part), separator) == joined(parts, separator)
            + separator + part,
{
    if parts.len() > 0 {
        assert(parts.push(part).drop_last() =~= parts);
    }
}

/// A size is read from its digits, behind a plus sign or without one; an empty text, one
/// with another character, and a number that is too large are none.
pub proof fn sizes_are_read_from_their_digits(n: nat)
    ensures
        n <= usize::MAX ==> size_value(decimal(n)) == Some(n),
        n <= usize::MAX ==> size_value(seq!['+'] + decimal(n)) == Some(n),
        n > usize::MAX ==> size_value(decimal(n)) is None,
        size_value(Seq::empty()) is None,
        size_value(seq!['-'] + decimal(n)) is None,
        size_value(decimal(n) + seq![' ']) is None,
{
    lemma_decimal(n);
    let digits = decimal(n);
    assert(is_digit(digits[0]));
    assert((seq!['+'] + digits).drop_first() =~= digits);
    let signed = seq!['-'] + digits;
    lemma_no_digits(signed);
    let spaced = digits + seq![' '];
    assert(spaced.last() == ' ');
    assert(spaced[0] == digits[0]);
}

proof fn lemma_no_digits(text: Seq<char>)
    requires
        text.len() > 0,
        !is_digit(text[0]),
    ensures
        digits_value(text) is None,
    decreases text.len(),
{
    if text.len() > 1 {
        assert(text.drop_last()[0] == text[0]);
        lemma_no_digits(text.drop_last());
    } else {
        assert(text.last() == text[0]);
    }
}

} // verus!
