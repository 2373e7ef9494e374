//! How messages stand on the wire: a header with the length of the body, an
//! empty line, and the body.

use vstd::prelude::*;

use crate::text;

verus! {

broadcast use vstd::utf8::group_utf8_lib;

/// The header lines in front of a body of so many bytes.
pub open spec fn length_line(len: nat) -> Seq<char> {
    "Content-Length: "@ + text::decimal(len) + "\r\n"@
}

/// A body with its header.
pub open spec fn framed(body: Seq<char>) -> Seq<char> {
    length_line(vstd::utf8::encode_utf8(body).len()) + "\r\n"@ + body
}

/// The message with this body, as it is sent.
pub fn frame_message(body: &str) -> (message: String)
    ensures
        message@ == framed(body@),
        vstd::utf8::encode_utf8(body@).len() <= usize::MAX,
{
    let len = body.as_bytes().len();
    let mut message = "Content-Length: ".to_owned();
    text::push_decimal(&mut message, len as u64);
    message.append("\r\n");
    message.append("\r\n");
    message.append(body);
    message
}

/// The text without the carriage returns and line feeds at its end.
pub open spec fn without_line_end(line: Seq<char>) -> Seq<char>
    decreases line.len(),
{
    if line.len() > 0 && (line.last() == '\r' || line.last() == '\n') {
        without_line_end(line.drop_last())
    } else {
        line
    }
}

/// What the header lines read so far say of the body.
#[derive(Debug, Clone, Copy, PartialEq, Eq, Structural)]
pub struct HeaderReader {
    pub content_length: Option<usize>,
    pub saw_header: bool,
}

/// What is to be done after a header line.
#[derive(Debug, Clone, Copy, PartialEq, Eq, Structural)]
pub enum HeaderStep {
    /// Read another header line.
    More,
    /// Read a body of so many bytes.
    Body(usize),
    /// There was no header, or no more to read: there are no more messages.
    End,
    /// The header is complete and lacks the length of the body.
    MissingLength,
}

impl HeaderReader {
    pub open spec fn start() -> HeaderReader {
        HeaderReader { content_length: None, saw_header: false }
    }

    /// The reader and the step after one more line. Where there is not even a line
    /// end, nothing more comes.
    pub open spec fn after(self, whole: Seq<char>) -> (HeaderReader, HeaderStep) {
        let line = without_line_end(whole);
        if whole.len() == 0 {
            (self, HeaderStep::End)
        } else if line.len() == 0 {
            let step = if !self.saw_header {
                HeaderStep::End
            } else {
                match self.content_length {
                    Some(len) => HeaderStep::Body(len),
                    None => HeaderStep::MissingLength,
                }
            };
            (self, step)
        } else {
            let content_length = match text::after_prefix(line, "Content-Length:"@) {
                Some(rest) => match text::size_value(text::trimmed(rest)) {
                    Some(n) => Some(n as usize),
                    None => None,
                },
                None => self.content_length,
            };
            (HeaderReader { content_length, saw_header: true }, HeaderStep::More)
        }
    }

    pub fn new() -> (reader: HeaderReader)
        ensures
            reader == HeaderReader::start(),
    {
        HeaderReader { content_length: None, saw_header: false }
    }

    /// Takes one line of the header, with or without its line end; an empty text
    /// where there is no more to read.
    pub fn read_line(&mut self, line: &str) -> (step: HeaderStep)
        ensures
            (*final(self), step) == old(self).after(line@),
    {
        let chars = text::chars_of(line);
        let mut end: usize = chars.len();
        proof {
            assert(line@.take(end as int) =~= line@);
        }
        while end > 0 && (chars[end - 1] == '\r' || chars[end - 1] == '\n')
            invariant
                chars@ == line@,
                end <= chars@.len(),
                without_line_end(line@) == without_line_end(line@.take(end as int)),
            decreases end,
        {
            proof {
                assert(line@.take(end as int).drop_last() =~= line@.take(end - 1));
            }
            end = end - 1;
        }
        let content = text::slice_of(&chars, 0, end);
        proof {
            assert(content@ =~= line@.take(end as int));
        }
        if chars.len() == 0 {
            return HeaderStep::End;
        }
        if end == 0 {
            if !self.saw_header {
                return HeaderStep::End;
            }
            return match self.content_length {
                Some(len) => HeaderStep::Body(len),
                None => HeaderStep::MissingLength,
            };
        }
        self.saw_header = true;
        if let Some(length) = text::strip_prefix(&content, "Content-Length:") {
            self.content_length = text::parse_size(&text::trim(&length));
        }
        HeaderStep::More
    }
}

/// The header of a framed message reads back as the length of its body.
pub proof fn framed_header_reads_back(body: Seq<char>)
    requires
        vstd::utf8::encode_utf8(body).len() <= usize::MAX,
    ensures
        ({
            let len = vstd::utf8::encode_utf8(body).len();
            let (reader, step) = HeaderReader::start().after(length_line(len));
            &&& framed(body) == length_line(len) + "\r\n"@ + body
            &&& step == HeaderStep::More
            &&& reader.after("\r\n"@) == (reader, HeaderStep::Body(len as usize))
        }),
{
    let len = vstd::utf8::encode_utf8(body).len();
    let digits = text::decimal(len);
    let line = length_line(len);
    reveal_strlit("\r\n");
    reveal_strlit("Content-Length: ");
    reveal_strlit("Content-Length:");
    text::lemma_decimal(len);
    let content = "Content-Length: "@ + digits;
    assert(line.drop_last().drop_last() =~= content);
    assert(content.last() == digits[digits.len() - 1]);
    assert(text::is_digit(digits[digits.len() - 1]));
    reveal_with_fuel(without_line_end, 4);
    assert(without_line_end(line) == content);
    assert(content.subrange(0, "Content-Length:"@.len() as int) =~= "Content-Length:"@);
    let rest = content.skip("Content-Length:"@.len() as int);
    assert(rest =~= seq![' '] + digits);
    assert(rest.drop_first() =~= digits);
    assert(text::is_digit(digits[0]));
    reveal_with_fuel(text::trim_start, 2);
    assert(text::trim_start(rest) == digits);
    assert(text::trimmed(rest) == digits);
    assert(without_line_end("\r\n"@).len() == 0);
}

proof fn lemma_encode_concat(a: Seq<char>, b: Seq<char>)
    ensures
        vstd::utf8::encode_utf8(a + b) == vstd::utf8::encode_utf8(a) + vstd::utf8::encode_utf8(b),
    decreases a.len(),
{
    if a.len() == 0 {
        assert(a + b =~= b);
        assert(vstd::utf8::encode_utf8(a) + vstd::utf8::encode_utf8(b)
            =~= vstd::utf8::encode_utf8(b));
    } else {
        lemma_encode_concat(a.drop_first(), b);
        assert((a + b).drop_first() =~= a.drop_first() + b);
        assert(vstd::utf8::encode_utf8(a + b) =~= vstd::utf8::encode_utf8(a)
            + vstd::utf8::encode_utf8(b));
    }
}

/// The bytes of a framed message are those of its header lines and, behind them,
/// those of its body, as many as the header reads as.
pub proof fn framed_message_reads_back(body: Seq<char>)
    ensures
        ({
            let bytes = vstd::utf8::encode_utf8(body);
            let line = length_line(bytes.len());
            &&& vstd::utf8::encode_utf8(framed(body)) == vstd::utf8::encode_utf8(line)
                + vstd::utf8::encode_utf8("\r\n"@) + bytes
            &&& bytes.len() <= usize::MAX ==> {
                let (reader, step) = HeaderReader::start().after(line);
                &&& step == HeaderStep::More
                &&& reader.after("\r\n"@) == (reader, HeaderStep::Body(bytes.len() as usize))
            }
        }),
{
    let len = vstd::utf8::encode_utf8(body).len();
    let line = length_line(len);
    lemma_encode_concat(line, "\r\n"@);
    lemma_encode_concat(line + "\r\n"@, body);
    if len <= usize::MAX {
        framed_header_reads_back(body);
    }
}

/// A line of another header changes nothing of what is known of the body; the length is
/// what its own line says; and the empty line behind the headers asks for a body of that
/// length, or says that the length is missing.
pub proof fn headers_are_read_line_by_line(
    reader: HeaderReader,
    line: Seq<char>,
    len: nat,
)
    requires
        len <= usize::MAX,
    ensures
        line.len() > 0 && line.last() != '\r' && line.last() != '\n'
            && !"Content-Length:"@.is_prefix_of(line) ==> reader.after(line) == (
            HeaderReader { saw_header: true, ..reader },
            HeaderStep::More,
        ),
        reader.after(length_line(len)) == (
            HeaderReader { content_length: Some(len as usize), saw_header: true },
            HeaderStep::More,
        ),
        reader.saw_header && reader.content_length is Some ==> reader.after("\r\n"@) == (
            reader,
            HeaderStep::Body(reader.content_length->0),
        ),
        reader.saw_header && reader.content_length is None ==> reader.after("\r\n"@) == (
            reader,
            HeaderStep::MissingLength,
        ),
        !reader.saw_header ==> reader.after("\r\n"@) == (reader, HeaderStep::End),
        reader.after(Seq::empty()) == (reader, HeaderStep::End),
{
    let digits = text::decimal(len);
    let whole = length_line(len);
    reveal_strlit("\r\n");
    reveal_strlit("Content-Length: ");
    reveal_strlit("Content-Length:");
    text::lemma_decimal(len);
    let content = "Content-Length: "@ + digits;
    assert(whole.drop_last().drop_last() =~= content);
    assert(content.last() == digits[digits.len() - 1]);
    assert(text::is_digit(digits[digits.len() - 1]));
    reveal_with_fuel(without_line_end, 4);
    assert(without_line_end(whole) == content);
    assert(content.subrange(0, "Content-Length:"@.len() as int) =~= "Content-Length:"@);
    let rest = content.skip("Content-Length:"@.len() as int);
    assert(rest =~= seq![' '] + digits);
    assert(rest.drop_first() =~= digits);
    assert(text::is_digit(digits[0]));
    reveal_with_fuel(text::trim_start, 2);
    assert(text::trim_start(rest) == digits);
    assert(text::trimmed(rest) == digits);
    assert(without_line_end("\r\n"@).len() == 0);
}

/// A line that names the length of the body without a number takes back a length that
/// was named before; the last line that names one counts.
pub proof fn the_last_length_counts(reader: HeaderReader, rest: Seq<char>)
    requires
        rest.len() > 0,
        rest.last() != '\r',
        rest.last() != '\n',
    ensures
        ({
            let after = reader.after("Content-Length:"@ + rest);
            &&& after.1 is More
            &&& after.0.saw_header
            &&& text::size_value(text::trimmed(rest)) is None ==> after.0.content_length is None
            &&& text::size_value(text::trimmed(rest)) is Some ==> after.0.content_length is Some
                && after.0.content_length->0 == text::size_value(text::trimmed(rest))->0 as usize
        }),
{
    let line = "Content-Length:"@ + rest;
    assert(line.last() == rest.last());
    text::rests_stand_behind_their_prefix("Content-Length:"@, rest, rest);
}

} // verus!
