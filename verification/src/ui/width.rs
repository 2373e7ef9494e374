//! Texts cut to the width they take on the screen.

use vstd::prelude::*;

use crate::text;
use crate::ui::line;

use ::unicode_width::UnicodeWidthStr;

verus! {

/// The number of columns that `UnicodeWidthStr::width` of the `unicode-width`
/// crate gives for a text.
pub uninterp spec fn display_width(text: Seq<char>) -> usize;

/// Calls `UnicodeWidthStr::width` of the `unicode-width` crate: the number of
/// columns that a text takes on the screen, a function of the text alone.
#[verifier::external_body]
pub(crate) fn text_width(text: &str) -> (width: usize)
    ensures
        width == display_width(text@),
{
    UnicodeWidthStr::width(text)
}

/// The width that a character takes: at least one column.
pub open spec fn char_columns(width: usize) -> nat {
    if width == 0 {
        1
    } else {
        width as nat
    }
}

/// The number of leading characters of the given widths that fit into `room`
/// columns.
pub open spec fn fitting(widths: Seq<usize>, room: int) -> nat
    decreases widths.len(),
{
    if widths.len() == 0 || char_columns(widths[0]) > room {
        0
    } else {
        1 + fitting(widths.drop_first(), room - char_columns(widths[0]))
    }
}

/// The columns that the first `n` of several characters take.
pub open spec fn columns(widths: Seq<usize>, n: int) -> nat
    decreases n,
{
    if n <= 0 {
        0
    } else {
        columns(widths, n - 1) + char_columns(widths[n - 1])
    }
}

proof fn lemma_columns_first(widths: Seq<usize>, n: int)
    requires
        1 <= n <= widths.len(),
    ensures
        columns(widths, n) == char_columns(widths[0]) + columns(widths.drop_first(), n - 1),
    decreases n,
{
    if n > 1 {
        lemma_columns_first(widths, n - 1);
        assert(widths[n - 1] == widths.drop_first()[n - 2]);
    } else {
        assert(columns(widths, 0) == 0);
    }
}

/// The characters that fit are as many as there is room for: they do not take
/// more columns than there are, and with the next one they would.
pub proof fn fitting_is_longest(widths: Seq<usize>, room: nat)
    ensures
        fitting(widths, room as int) <= widths.len(),
        columns(widths, fitting(widths, room as int) as int) <= room,
        fitting(widths, room as int) < widths.len() ==> columns(
            widths,
            fitting(widths, room as int) as int + 1,
        ) > room,
    decreases widths.len(),
{
    let n = fitting(widths, room as int);
    if widths.len() == 0 {
    } else if char_columns(widths[0]) > room {
        lemma_columns_first(widths, 1);
    } else {
        let left = (room - char_columns(widths[0])) as nat;
        fitting_is_longest(widths.drop_first(), left);
        lemma_columns_first(widths, n as int);
        if n < widths.len() {
            lemma_columns_first(widths, n as int + 1);
        }
    }
}

/// The widths of the characters of a text.
pub open spec fn char_widths(text: Seq<char>) -> Seq<usize> {
    Seq::new(text.len(), |i: int| display_width(seq![text[i]]))
}

/// A text whose characters have the given widths, cut to a width.
pub open spec fn cut(text: Seq<char>, widths: Seq<usize>, width: int) -> Seq<char> {
    text.take(fitting(widths, width) as int)
}

/// The start of a text that fits into a width.
pub open spec fn truncated(text: Seq<char>, width: int) -> Seq<char> {
    cut(text, char_widths(text), width)
}

/// Cuts a text whose characters have the given widths to a width.
pub fn cut_to_width(text: &str, widths: &Vec<usize>, width: usize) -> (out: String)
    requires
        widths@.len() == text@.len(),
    ensures
        out@ == cut(text@, widths@, width as int),
{
    let chars = text::chars_of(text);
    let mut left: usize = width;
    let mut n: usize = 0;
    proof {
        assert(widths@.skip(0) =~= widths@);
    }
    while n < chars.len()
        invariant
            chars@ == text@,
            widths@.len() == text@.len(),
            n <= chars@.len(),
            fitting(widths@, width as int) == n + fitting(widths@.skip(n as int), left as int),
        ensures
            n <= chars@.len(),
            n == fitting(widths@, width as int),
        decreases chars@.len() - n,
    {
        let own: usize = if widths[n] == 0 {
            1
        } else {
            widths[n]
        };
        proof {
            assert(widths@.skip(n as int)[0] == widths@[n as int]);
            assert(widths@.skip(n as int).drop_first() =~= widths@.skip(n + 1));
        }
        if own > left {
            break;
        }
        left = left - own;
        n = n + 1;
    }
    let out = text::slice_of(&chars, 0, n);
    proof {
        assert(out@ =~= text@.take(n as int));
    }
    out
}

/// The start of a text that fits into a width.
pub fn truncate_width(text: &str, width: usize) -> (out: String)
    ensures
        out@ == truncated(text@, width as int),
{
    let chars = text::chars_of(text);
    let mut widths: Vec<usize> = Vec::new();
    for i in 0..chars.len()
        invariant
            chars@ == text@,
            widths@ == char_widths(text@).take(i as int),
    {
        let mut one = String::new();
        one.push(chars[i]);
        proof {
            assert(one@ =~= seq![text@[i as int]]);
        }
        widths.push(text_width(&one));
        proof {
            assert(widths@ =~= char_widths(text@).take(i + 1));
        }
    }
    proof {
        assert(widths@ =~= char_widths(text@));
    }
    cut_to_width(text, &widths, width)
}

/// A text of one width with another text of another width at the right end of a
/// row: the first one is cut so that a space and the second one fit, and the
/// second one is left out where there is no room for it.
pub open spec fn fitted(
    prefix: Seq<char>,
    prefix_width: int,
    suffix: Seq<char>,
    suffix_width: int,
    width: int,
) -> Seq<char> {
    if width == 0 {
        Seq::empty()
    } else if suffix.len() == 0 || suffix_width + 1 >= width {
        truncated(prefix, width)
    } else if prefix_width + suffix_width >= width {
        truncated(prefix, width - suffix_width - 1) + " "@ + text::trim_start(suffix)
    } else {
        prefix + line::spaces((width - prefix_width - suffix_width) as nat) + suffix
    }
}

/// Fits two texts of known widths into a row.
pub fn fit_known_widths(
    prefix: &str,
    prefix_width: usize,
    suffix: &str,
    suffix_width: usize,
    width: usize,
) -> (out: String)
    ensures
        out@ == fitted(
            prefix@,
            prefix_width as int,
            suffix@,
            suffix_width as int,
            width as int,
        ),
{
    if width == 0 {
        return String::new();
    }
    if suffix.is_empty() || suffix_width >= width - 1 {
        return truncate_width(prefix, width);
    }
    if prefix_width >= width - suffix_width {
        let mut out = truncate_width(prefix, width - suffix_width - 1);
        out.append(" ");
        out.append(&text::trim_start_of(suffix));
        return out;
    }
    let mut out = prefix.to_owned();
    out.append(&line::space_text(width - suffix_width - prefix_width));
    out.append(suffix);
    out
}

/// A text with another one at the right end of a row.
pub fn fit_with_suffix(prefix: &str, suffix: &str, width: usize) -> (out: String)
    ensures
        out@ == fitted(
            prefix@,
            display_width(prefix@) as int,
            suffix@,
            display_width(suffix@) as int,
            width as int,
        ),
{
    fit_known_widths(prefix, text_width(prefix), suffix, text_width(suffix), width)
}

} // verus!
