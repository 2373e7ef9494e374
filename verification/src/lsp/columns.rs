//! Columns of a line, counted in characters and in UTF-16 code units.

use vstd::prelude::*;

use crate::text;

verus! {

broadcast use vstd::utf8::group_utf8_lib;

/// The number of UTF-16 code units of a character.
pub open spec fn utf16_len(c: char) -> nat {
    if (c as u32) < 0x10000 {
        1
    } else {
        2
    }
}

/// The number of UTF-16 code units of a text.
pub open spec fn utf16_width(text: Seq<char>) -> nat
    decreases text.len(),
{
    if text.len() == 0 {
        0
    } else {
        utf16_len(text[0]) + utf16_width(text.drop_first())
    }
}

/// The UTF-16 column of the character column `col`, or of the end of a line
/// that is shorter.
pub open spec fn utf16_col(line: Seq<char>, col: nat) -> nat {
    utf16_width(
        line.take(
            if col < line.len() {
                col as int
            } else {
                line.len() as int
            },
        ),
    )
}

/// The number of leading characters that lie within the first `units` UTF-16
/// code units of a line.
pub open spec fn char_col(line: Seq<char>, units: int) -> nat
    decreases line.len(),
{
    if line.len() == 0 || utf16_len(line[0]) > units {
        0
    } else {
        1 + char_col(line.drop_first(), units - utf16_len(line[0]))
    }
}

proof fn lemma_width_push(line: Seq<char>, i: int)
    requires
        0 <= i < line.len(),
    ensures
        utf16_width(line.take(i + 1)) == utf16_width(line.take(i)) + utf16_len(line[i]),
    decreases i,
{
    if i == 0 {
        assert(line.take(1).drop_first() =~= line.take(0));
    } else {
        let rest = line.drop_first();
        lemma_width_push(rest, i - 1);
        assert(line.take(i + 1).drop_first() =~= rest.take(i));
        assert(line.take(i).drop_first() =~= rest.take(i - 1));
    }
}

proof fn lemma_width_monotone(line: Seq<char>, i: int, j: int)
    requires
        0 <= i <= j <= line.len(),
    ensures
        utf16_width(line.take(i)) <= utf16_width(line.take(j)),
    decreases j - i,
{
    if i < j {
        lemma_width_push(line, j - 1);
        lemma_width_monotone(line, i, j - 1);
    }
}

/// A text has no more UTF-16 code units than UTF-8 bytes.
proof fn lemma_width_within_bytes(line: Seq<char>)
    ensures
        utf16_width(line) <= vstd::utf8::encode_utf8(line).len(),
    decreases line.len(),
{
    if line.len() > 0 {
        lemma_width_within_bytes(line.drop_first());
    }
}

/// The UTF-16 column of a character column.
pub fn char_col_to_utf16(line: &str, col: usize) -> (units: usize)
    ensures
        units == utf16_col(line@, col as nat),
{
    let limit = line.as_bytes().len();
    let chars = text::chars_of(line);
    let end: usize = if col < chars.len() {
        col
    } else {
        chars.len()
    };
    let mut units: usize = 0;
    proof {
        lemma_width_within_bytes(line@);
        assert(line@.take(line@.len() as int) =~= line@);
        assert(line@.take(0) =~= Seq::<char>::empty());
    }
    for i in 0..end
        invariant
            chars@ == line@,
            end <= chars@.len(),
            units == utf16_width(line@.take(i as int)),
            utf16_width(line@.take(line@.len() as int)) <= limit,
    {
        proof {
            lemma_width_push(line@, i as int);
            lemma_width_monotone(line@, i + 1, line@.len() as int);
        }
        units = units + if (chars[i] as u32) < 0x10000 {
            1
        } else {
            2
        };
    }
    units
}

/// The character column of a UTF-16 column: a column inside a character is
/// that of the character, one past the line is its end.
pub fn utf16_col_to_char_col(line: &str, utf16_col: usize) -> (col: usize)
    ensures
        col == char_col(line@, utf16_col as int),
        col <= line@.len(),
{
    let chars = text::chars_of(line);
    let mut left: usize = utf16_col;
    let mut col: usize = 0;
    proof {
        assert(line@.skip(0) =~= line@);
    }
    while col < chars.len()
        invariant
            chars@ == line@,
            col <= chars@.len(),
            char_col(line@, utf16_col as int) == col + char_col(
                line@.skip(col as int),
                left as int,
            ),
        decreases chars@.len() - col,
    {
        let units: usize = if (chars[col] as u32) < 0x10000 {
            1
        } else {
            2
        };
        if units > left {
            return col;
        }
        proof {
            assert(line@.skip(col as int).drop_first() =~= line@.skip(col + 1));
        }
        left = left - units;
        col = col + 1;
    }
    col
}

/// The character column of a UTF-16 column is the last one that does not lie
/// past it.
pub proof fn char_col_is_last_within(line: Seq<char>, units: nat)
    ensures
        char_col(line, units as int) <= line.len(),
        utf16_width(line.take(char_col(line, units as int) as int)) <= units,
        forall|i: int|
            char_col(line, units as int) < i <= line.len() ==> utf16_width(#[trigger] line.take(i))
                > units,
    decreases line.len(),
{
    let col = char_col(line, units as int);
    if line.len() == 0 {
        assert(line.take(0) =~= line);
    } else if utf16_len(line[0]) > units {
        assert(line.take(0) =~= Seq::<char>::empty());
        lemma_width_push(line, 0);
        assert forall|i: int| col < i <= line.len() implies utf16_width(#[trigger] line.take(i))
            > units by {
            lemma_width_monotone(line, 1, i);
        }
    } else {
        let rest = line.drop_first();
        let left = (units - utf16_len(line[0])) as nat;
        char_col_is_last_within(rest, left);
        assert(line.take(col as int).drop_first() =~= rest.take(col - 1));
        assert forall|i: int| col < i <= line.len() implies utf16_width(#[trigger] line.take(i))
            > units by {
            assert(line.take(i).drop_first() =~= rest.take(i - 1));
        }
    }
}

/// Turning a character column into a UTF-16 column and back gives the same
/// column, or the end of a line that is shorter.
pub proof fn columns_round_trip(line: Seq<char>, col: nat)
    ensures
        char_col(line, utf16_col(line, col) as int) == if col < line.len() {
            col
        } else {
            line.len()
        },
{
    let end: nat = if col < line.len() {
        col
    } else {
        line.len()
    };
    let units = utf16_width(line.take(end as int));
    char_col_is_last_within(line, units);
    let found = char_col(line, units as int);
    if found < end {
        assert(utf16_width(line.take(end as int)) > units);
    } else if found > end {
        lemma_width_push(line, end as int);
        lemma_width_monotone(line, end as int + 1, found as int);
    }
}

/// A character counts as one UTF-16 code unit, or as two where its number has more
/// than sixteen bits: that much the column of the next character is larger.
pub proof fn columns_count_code_units(line: Seq<char>, col: nat)
    ensures
        utf16_col(line, 0) == 0,
        col < line.len() ==> utf16_col(line, col + 1) == utf16_col(line, col) + (if line[col as int]
            as u32 >= 0x10000 {
            2nat
        } else {
            1
        }),
        col >= line.len() ==> utf16_col(line, col) == utf16_col(line, line.len()),
{
    assert(line.take(0) =~= Seq::<char>::empty());
    if col < line.len() {
        lemma_width_push(line, col as int);
    }
}

/// The character at a column of code units is the last one that starts within them;
/// past the end of the line it is the end.
pub proof fn characters_are_found_by_code_units(line: Seq<char>, units: nat)
    ensures
        char_col(line, units as int) <= line.len(),
        utf16_col(line, char_col(line, units as int)) <= units,
        char_col(line, units as int) < line.len() ==> utf16_col(
            line,
            char_col(line, units as int) + 1,
        ) > units,
{
    char_col_is_last_within(line, units);
}

} // verus!
