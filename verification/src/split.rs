//! Cutting a text into lines.
//!
//! A text is cut after every line feed. Each line keeps its terminator, so the
//! lines put together again are the text; only the last line can be without
//! one.

use vstd::prelude::*;
use crate::text::line_feed;

verus! {

/// The lines of `text`, each with its terminator.
pub open spec fn lines_of(text: Seq<char>) -> Seq<Seq<char>>
    decreases text.len(),
{
    if text.len() == 0 {
        Seq::empty()
    } else {
        let before = lines_of(text.drop_last());
        if before.len() > 0 && before.last().last() != line_feed() {
            before.drop_last().push(before.last().push(text.last()))
        } else {
            before.push(seq![text.last()])
        }
    }
}

/// `lines` put one after the other.
pub open spec fn joined(lines: Seq<Seq<char>>) -> Seq<char>
    decreases lines.len(),
{
    if lines.len() == 0 {
        Seq::empty()
    } else {
        joined(lines.drop_last()) + lines.last()
    }
}

/// Cutting loses nothing: the lines of a text, joined, are the text.
pub proof fn lemma_lines_join_to_text(text: Seq<char>)
    ensures
        joined(lines_of(text)) == text,
    decreases text.len(),
{
    if text.len() > 0 {
        let shorter = text.drop_last();
        let before = lines_of(shorter);
        let after = lines_of(text);
        lemma_lines_join_to_text(shorter);
        if before.len() > 0 && before.last().last() != line_feed() {
            assert(after.drop_last() =~= before.drop_last());
            assert(joined(after) =~= joined(before).push(text.last()));
        } else {
            assert(after.drop_last() =~= before);
            assert(joined(after) =~= joined(before).push(text.last()));
        }
        assert(shorter.push(text.last()) =~= text);
    }
}

/// No line is empty. A line feed stands only at the end of a line, and every
/// line but the last has one there.
pub proof fn lemma_lines_are_well_formed(text: Seq<char>, i: int)
    requires
        0 <= i < lines_of(text).len(),
    ensures
        lines_of(text)[i].len() >= 1,
        forall|j: int| 0 <= j < lines_of(text)[i].len() - 1 ==> lines_of(text)[i][j] != line_feed(),
        i < lines_of(text).len() - 1 ==> lines_of(text)[i].last() == line_feed(),
    decreases text.len(),
{
    if text.len() > 0 {
        let shorter = text.drop_last();
        let before = lines_of(shorter);
        if before.len() > 0 && before.last().last() != line_feed() {
            if i < before.len() - 1 {
                lemma_lines_are_well_formed(shorter, i);
            } else {
                lemma_lines_are_well_formed(shorter, before.len() - 1);
            }
        } else {
            if i < before.len() {
                lemma_lines_are_well_formed(shorter, i);
                if i == before.len() - 1 {
                    assert(before.last().last() == line_feed());
                }
            }
        }
    }
}

/// `String::push` of the standard library: the character is appended to the
/// end of the string, and the rest of the string stays as it was.
pub assume_specification[ String::push ](s: &mut String, c: char)
    ensures
        final(s)@ == old(s)@.push(c),
;

/// Cuts `text` into its lines.
pub fn split_lines(text: &str) -> (lines: Vec<String>)
    ensures
        lines.deep_view() == lines_of(text@),
{
    let mut lines: Vec<String> = Vec::new();
    let mut current = String::new();
    proof {
        assert(lines.deep_view() =~= lines_of(text@.take(0)));
    }
    for c in it: text.chars()
        invariant
            it.seq() == text@,
            current@.len() == 0 ==> {
                &&& lines_of(text@.take(it.index() as int)) == lines.deep_view()
                &&& lines.len() > 0 ==> lines.deep_view().last().last() == line_feed()
            },
            current@.len() > 0 ==> {
                &&& lines_of(text@.take(it.index() as int)) == lines.deep_view().push(current@)
                &&& current@.last() != line_feed()
            },
    {
        let ghost read = it.index() as int;
        let ghost done = lines.deep_view();
        let ghost open = current@;
        proof {
            assert(text@.take(read + 1).drop_last() =~= text@.take(read));
            assert(text@.take(read + 1).last() == c);
            if open.len() > 0 {
                assert(done.push(open).drop_last() =~= done);
            }
        }
        current.push(c);
        proof {
            if open.len() == 0 {
                assert(current@ =~= seq![c]);
            }
        }
        if c == '\n' {
            lines.push(current);
            current = String::new();
            proof {
                assert(lines.deep_view() =~= done.push(open.push(c)));
            }
        } else {
            proof {
                assert(lines.deep_view().push(current@) =~= done.push(open.push(c)));
            }
        }
    }
    proof {
        assert(text@.take(text@.len() as int) =~= text@);
    }
    if current.as_str().is_empty() {
        proof {
            assert(lines.deep_view() =~= lines_of(text@));
        }
    } else {
        let ghost done = lines.deep_view();
        lines.push(current);
        proof {
            assert(lines.deep_view() =~= done.push(current@));
        }
    }
    lines
}

} // verus!
