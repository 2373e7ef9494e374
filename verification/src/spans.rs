//! Runs of text in one style.

use vstd::prelude::*;

use crate::screen::TerminalStyle;

verus! {

/// Runs with one more piece of text: the last run goes on where it has the
/// style of the piece.
pub open spec fn extended<S>(runs: Seq<(Seq<char>, S)>, text: Seq<char>, style: S) -> Seq<
    (Seq<char>, S),
> {
    if runs.len() > 0 && runs.last().1 == style {
        runs.drop_last().push((runs.last().0 + text, style))
    } else {
        runs.push((text, style))
    }
}

/// Styled pieces of text, neighbours of one style taken together.
pub open spec fn runs<S>(items: Seq<(Seq<char>, S)>) -> Seq<(Seq<char>, S)>
    decreases items.len(),
{
    if items.len() == 0 {
        Seq::empty()
    } else {
        extended(runs(items.drop_last()), items.last().0, items.last().1)
    }
}

/// All text of styled pieces.
pub open spec fn plain<S>(items: Seq<(Seq<char>, S)>) -> Seq<char>
    decreases items.len(),
{
    if items.len() == 0 {
        Seq::empty()
    } else {
        plain(items.drop_last()) + items.last().0
    }
}

/// Taking pieces together keeps their text, and leaves no two neighbours of one
/// style.
pub proof fn runs_keep_the_text<S>(items: Seq<(Seq<char>, S)>)
    ensures
        plain(runs(items)) == plain(items),
        forall|i: int|
            0 < i < runs(items).len() ==> (#[trigger] runs(items)[i]).1 != runs(items)[i - 1].1,
    decreases items.len(),
{
    if items.len() > 0 {
        let before = runs(items.drop_last());
        let (text, style) = items.last();
        let after = runs(items);
        runs_keep_the_text(items.drop_last());
        if before.len() > 0 && before.last().1 == style {
            assert(after.drop_last() =~= before.drop_last());
            assert(plain(before) =~= plain(before.drop_last()) + before.last().0);
            assert(plain(after) =~= plain(before) + text);
            assert forall|i: int| 0 < i < after.len() implies (#[trigger] after[i]).1 != after[i
                - 1].1 by {
                assert(after[i].1 == before[i].1);
                assert(after[i - 1] == before[i - 1]);
            }
        } else {
            assert(after.drop_last() =~= before);
            assert forall|i: int| 0 < i < after.len() implies (#[trigger] after[i]).1 != after[i
                - 1].1 by {
                if i < before.len() {
                    assert(after[i] == before[i]);
                }
                assert(after[i - 1] == before[i - 1]);
            }
        }
    }
}

/// A run of terminal cells.
#[derive(Debug, Clone, PartialEq, Eq)]
pub struct TerminalSpan {
    pub text: String,
    pub style: TerminalStyle,
}

pub open spec fn terminal_spans_view(spans: Seq<TerminalSpan>) -> Seq<(Seq<char>, TerminalStyle)> {
    Seq::new(spans.len(), |i: int| (spans[i].text@, spans[i].style))
}

/// Adds one more piece of text to runs of terminal cells.
pub fn extend_terminal_spans(spans: &mut Vec<TerminalSpan>, text: &str, style: TerminalStyle)
    ensures
        terminal_spans_view(final(spans)@) == extended(
            terminal_spans_view(old(spans)@),
            text@,
            style,
        ),
{
    let ghost before = spans@;
    let ghost view = terminal_spans_view(before);
    match spans.pop() {
        Some(last) => {
            proof {
                assert(view.last() == (last.text@, last.style));
                assert(terminal_spans_view(spans@) =~= view.drop_last());
            }
            if last.style == style {
                let mut last = last;
                last.text.append(text);
                spans.push(last);
                proof {
                    assert(terminal_spans_view(spans@) =~= extended(view, text@, style));
                }
            } else {
                spans.push(last);
                spans.push(TerminalSpan { text: text.to_owned(), style });
                proof {
                    assert(terminal_spans_view(spans@) =~= extended(view, text@, style));
                }
            }
        },
        None => {
            spans.push(TerminalSpan { text: text.to_owned(), style });
            proof {
                assert(terminal_spans_view(spans@) =~= extended(view, text@, style));
            }
        },
    }
}

/// The characters of styled pieces, each with its style.
pub open spec fn styled_chars<S>(items: Seq<(Seq<char>, S)>) -> Seq<(char, S)>
    decreases items.len(),
{
    if items.len() == 0 {
        Seq::empty()
    } else {
        styled_chars(items.drop_last()) + Seq::new(
            items.last().0.len(),
            |i: int| (items.last().0[i], items.last().1),
        )
    }
}

/// Taking pieces together keeps every character in its style.
pub proof fn runs_keep_the_styles<S>(items: Seq<(Seq<char>, S)>)
    ensures
        styled_chars(runs(items)) == styled_chars(items),
    decreases items.len(),
{
    if items.len() > 0 {
        let before = runs(items.drop_last());
        let (text, style) = items.last();
        let after = runs(items);
        let own = Seq::new(text.len(), |i: int| (text[i], style));
        runs_keep_the_styles(items.drop_last());
        assert(styled_chars(items) == styled_chars(items.drop_last()) + own);
        if before.len() > 0 && before.last().1 == style {
            assert(after.drop_last() =~= before.drop_last());
            assert(styled_chars(after) =~= styled_chars(before) + own);
        } else {
            assert(after.drop_last() =~= before);
        }
    }
}

} // verus!
