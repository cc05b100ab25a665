//! Lines and their comparison keys.
//!
//! A line is a span of text that may end with a line terminator, either a line
//! feed or a carriage return followed by a line feed. Two lines belong to the
//! same run when they are equal once that terminator is set aside.

use vstd::prelude::*;
use vstd::string::StrSliceExecFns;
use crate::text::carriage_return;
use crate::text::line_feed;
use crate::text::same_text;

verus! {

/// Number of characters taken by the terminator at the end of `line`:
/// 2 for a carriage return and line feed, 1 for a lone line feed, 0 otherwise.
pub open spec fn terminator_len(line: Seq<char>) -> nat {
    if line.len() >= 1 && line.last() == line_feed() {
        if line.len() >= 2 && line[line.len() - 2] == carriage_return() {
            2
        } else {
            1
        }
    } else {
        0
    }
}

/// The comparison key of a line: the line without its one trailing terminator.
/// Nothing else is removed; spaces and earlier terminators stay.
pub open spec fn line_key(line: Seq<char>) -> Seq<char> {
    line.subrange(0, line.len() - terminator_len(line))
}

/// Whether two lines fall into the same run.
pub open spec fn same_key(a: Seq<char>, b: Seq<char>) -> bool {
    line_key(a) == line_key(b)
}

/// Returns the part of `line` that precedes its terminator.
pub fn strip_terminator(line: &str) -> (key: &str)
    ensures
        key@ == line_key(line@),
{
    let n: usize = line.unicode_len();
    if n >= 1 && line.get_char(n - 1) == '\n' {
        if n >= 2 && line.get_char(n - 2) == '\r' {
            line.substring_char(0, n - 2)
        } else {
            line.substring_char(0, n - 1)
        }
    } else {
        proof {
            assert(line@.subrange(0, line@.len() as int) =~= line@);
        }
        line
    }
}

/// Whether `a` and `b` are equal once each one's terminator is set aside.
pub fn lines_match(a: &str, b: &str) -> (same: bool)
    ensures
        same == same_key(a@, b@),
{
    same_text(strip_terminator(a), strip_terminator(b))
}

} // verus!
