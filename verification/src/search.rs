//! Search for a text in a line.

use vstd::prelude::*;

use crate::text;

verus! {

/// Whether `needle` stands in `line` at position `i`.
pub open spec fn occurs(line: Seq<char>, needle: Seq<char>, i: int) -> bool {
    0 <= i && i + needle.len() <= line.len() && line.subrange(i, i + needle.len()) == needle
}

/// Start and end of each place from `from` on where `needle` stands, from left
/// to right, none of them overlapping an earlier one.
pub open spec fn ranges_from(line: Seq<char>, needle: Seq<char>, from: int) -> Seq<(usize, usize)>
    decreases line.len() - from,
{
    if needle.len() == 0 || from < 0 || from + needle.len() > line.len() {
        Seq::empty()
    } else if occurs(line, needle, from) {
        seq![(from as usize, (from + needle.len()) as usize)] + ranges_from(
            line,
            needle,
            from + needle.len(),
        )
    } else {
        ranges_from(line, needle, from + 1)
    }
}

/// Start and end of each place in a line where `needle` stands.
pub open spec fn ranges(line: Seq<char>, needle: Seq<char>) -> Seq<(usize, usize)> {
    ranges_from(line, needle, 0)
}

fn occurs_at(line: &Vec<char>, needle: &Vec<char>, at: usize) -> (yes: bool)
    requires
        at + needle@.len() <= line@.len(),
    ensures
        yes == occurs(line@, needle@, at as int),
{
    let len = line.len();
    for i in 0..needle.len()
        invariant
            len == line@.len(),
            at + needle@.len() <= line@.len(),
            forall|j: int| 0 <= j < i ==> line@[at + j] == needle@[j],
    {
        if line[at + i] != needle[i] {
            proof {
                assert(line@.subrange(at as int, at + needle@.len())[i as int] != needle@[i as int]);
            }
            return false;
        }
    }
    proof {
        assert(line@.subrange(at as int, at + needle@.len()) =~= needle@);
    }
    true
}

/// The character columns at which `needle` starts and ends in a line; none for
/// an empty needle.
pub fn match_ranges(line: &str, needle: &str) -> (found: Vec<(usize, usize)>)
    ensures
        found@ == ranges(line@, needle@),
{
    let mut found: Vec<(usize, usize)> = Vec::new();
    let line_chars = text::chars_of(line);
    let needle_chars = text::chars_of(needle);
    if needle_chars.len() == 0 {
        return found;
    }
    let mut at: usize = 0;
    proof {
        assert(found@ + ranges_from(line@, needle@, 0) =~= ranges(line@, needle@));
    }
    while needle_chars.len() <= line_chars.len() - at
        invariant
            line_chars@ == line@,
            needle_chars@ == needle@,
            needle@.len() > 0,
            at <= line@.len(),
            found@ + ranges_from(line@, needle@, at as int) == ranges(line@, needle@),
        decreases line@.len() - at,
    {
        if occurs_at(&line_chars, &needle_chars, at) {
            let end = at + needle_chars.len();
            let ghost before = found@;
            let ghost rest = ranges_from(line@, needle@, end as int);
            found.push((at, end));
            proof {
                assert(before + (seq![(at, end)] + rest) =~= found@ + rest);
            }
            at = end;
        } else {
            at = at + 1;
        }
    }
    proof {
        assert(found@ + ranges_from(line@, needle@, at as int) =~= found@);
    }
    found
}

/// Whether a range is one where `needle` stands.
pub open spec fn is_occurrence(range: (usize, usize), line: Seq<char>, needle: Seq<char>) -> bool {
    range.1 == range.0 + needle.len() && occurs(line, needle, range.0 as int)
}

/// Whether one of the ranges overlaps the occurrence of `len` characters at `i`.
pub open spec fn overlapped(found: Seq<(usize, usize)>, i: int, len: int) -> bool {
    exists|k: int| 0 <= k < found.len() && (#[trigger] found[k]).0 < i + len && i < found[k].1
}

proof fn lemma_ranges_from(line: Seq<char>, needle: Seq<char>, from: int)
    requires
        line.len() <= usize::MAX,
        0 <= from,
    ensures
        forall|k: int|
            0 <= k < ranges_from(line, needle, from).len() ==> from <= (#[trigger] ranges_from(
                line,
                needle,
                from,
            )[k]).0 && is_occurrence(ranges_from(line, needle, from)[k], line, needle),
        forall|j: int, k: int|
            0 <= j < k < ranges_from(line, needle, from).len() ==> (#[trigger] ranges_from(
                line,
                needle,
                from,
            )[j]).1 <= (#[trigger] ranges_from(line, needle, from)[k]).0,
        forall|i: int|
            from <= i && needle.len() > 0 && #[trigger] occurs(line, needle, i) ==> overlapped(
                ranges_from(line, needle, from),
                i,
                needle.len() as int,
            ),
    decreases line.len() - from,
{
    let found = ranges_from(line, needle, from);
    if needle.len() == 0 || from + needle.len() > line.len() {
        assert(found.len() == 0);
    } else if occurs(line, needle, from) {
        let next = from + needle.len();
        let rest = ranges_from(line, needle, next);
        lemma_ranges_from(line, needle, next);
        assert(found =~= seq![(from as usize, next as usize)] + rest);
        assert forall|k: int| 0 <= k < found.len() implies from <= (#[trigger] found[k]).0
            && is_occurrence(found[k], line, needle) by {
            if k > 0 {
                assert(found[k] == rest[k - 1]);
            }
        }
        assert forall|j: int, k: int| 0 <= j < k < found.len() implies (#[trigger] found[j]).1 <= (
        #[trigger] found[k]).0 by {
            assert(found[k] == rest[k - 1]);
            if j > 0 {
                assert(found[j] == rest[j - 1]);
            }
        }
        assert forall|i: int|
            from <= i && needle.len() > 0 && #[trigger] occurs(line, needle, i) implies overlapped(
            found,
            i,
            needle.len() as int,
        ) by {
            if i < next {
                assert(found[0].0 < i + needle.len() && i < found[0].1);
            } else {
                assert(overlapped(rest, i, needle.len() as int));
                let k = choose|k: int|
                    0 <= k < rest.len() && (#[trigger] rest[k]).0 < i + needle.len() && i
                        < rest[k].1;
                assert(found[k + 1] == rest[k]);
            }
        }
    } else {
        lemma_ranges_from(line, needle, from + 1);
        let rest = ranges_from(line, needle, from + 1);
        assert(found == rest);
        assert forall|k: int| 0 <= k < found.len() implies from <= (#[trigger] found[k]).0
            && is_occurrence(found[k], line, needle) by {
            assert(from + 1 <= rest[k].0);
        }
    }
}

/// Every range that is found is an occurrence, the ranges do not overlap and
/// stand in order, and every occurrence overlaps one of them.
pub proof fn ranges_are_the_occurrences(line: Seq<char>, needle: Seq<char>)
    requires
        line.len() <= usize::MAX,
    ensures
        forall|k: int|
            0 <= k < ranges(line, needle).len() ==> is_occurrence(
                #[trigger] ranges(line, needle)[k],
                line,
                needle,
            ),
        forall|j: int, k: int|
            0 <= j < k < ranges(line, needle).len() ==> (#[trigger] ranges(line, needle)[j]).1 <= (
            #[trigger] ranges(line, needle)[k]).0,
        forall|i: int|
            needle.len() > 0 && #[trigger] occurs(line, needle, i) ==> overlapped(
                ranges(line, needle),
                i,
                needle.len() as int,
            ),
{
    lemma_ranges_from(line, needle, 0);
}

/// What is found is the text itself, character by character, none of it twice; and
/// wherever the text stands, it is found there or overlaps what was found before it.
/// An empty text is found nowhere.
pub proof fn found_ranges_hold_the_text(line: Seq<char>, needle: Seq<char>)
    requires
        line.len() <= usize::MAX,
    ensures
        ({
            let found = ranges(line, needle);
            &&& forall|k: int|
                0 <= k < found.len() ==> {
                    &&& (#[trigger] found[k]).0 < found[k].1 <= line.len()
                    &&& found[k].1 - found[k].0 == needle.len()
                    &&& forall|j: int|
                        0 <= j < needle.len() ==> line[found[k].0 + j] == #[trigger] needle[j]
                }
            &&& forall|j: int, k: int|
                0 <= j < k < found.len() ==> (#[trigger] found[j]).1 <= (#[trigger] found[k]).0
            &&& forall|i: int|
                needle.len() > 0 && 0 <= i && i + needle.len() <= line.len()
                    && #[trigger] line.subrange(i, i + needle.len()) == needle ==> exists|k: int|
                    0 <= k < found.len() && (#[trigger] found[k]).0 <= i < found[k].1
            &&& needle.len() == 0 ==> found.len() == 0
        }),
{
    lemma_ranges_from(line, needle, 0);
    let found = ranges(line, needle);
    assert forall|k: int| 0 <= k < found.len() implies {
        &&& (#[trigger] found[k]).0 < found[k].1 <= line.len()
        &&& found[k].1 - found[k].0 == needle.len()
        &&& forall|j: int| 0 <= j < needle.len() ==> line[found[k].0 + j] == #[trigger] needle[j]
    } by {
        assert(is_occurrence(found[k], line, needle));
        let start = found[k].0 as int;
        assert forall|j: int| 0 <= j < needle.len() implies line[start + j]
            == #[trigger] needle[j] by {
            assert(line.subrange(start, start + needle.len())[j] == line[start + j]);
        }
    }
    assert forall|i: int|
        needle.len() > 0 && 0 <= i && i + needle.len() <= line.len() && #[trigger] line.subrange(
            i,
            i + needle.len(),
        ) == needle implies exists|k: int|
        0 <= k < found.len() && (#[trigger] found[k]).0 <= i < found[k].1 by {
        lemma_found_from_left(line, needle, 0, i);
    }
}

proof fn lemma_found_from_left(line: Seq<char>, needle: Seq<char>, from: int, i: int)
    requires
        line.len() <= usize::MAX,
        needle.len() > 0,
        0 <= from <= i,
        occurs(line, needle, i),
    ensures
        exists|k: int|
            0 <= k < ranges_from(line, needle, from).len() && (#[trigger] ranges_from(
                line,
                needle,
                from,
            )[k]).0 <= i < ranges_from(line, needle, from)[k].1,
    decreases line.len() - from,
{
    let found = ranges_from(line, needle, from);
    if occurs(line, needle, from) {
        let next = from + needle.len();
        let rest = ranges_from(line, needle, next);
        assert(found =~= seq![(from as usize, next as usize)] + rest);
        if i < next {
            assert(found[0].0 <= i < found[0].1);
        } else {
            lemma_found_from_left(line, needle, next, i);
            let k = choose|k: int|
                0 <= k < rest.len() && (#[trigger] rest[k]).0 <= i < rest[k].1;
            assert(found[k + 1] == rest[k]);
        }
    } else {
        lemma_found_from_left(line, needle, from + 1, i);
    }
}

} // verus!
