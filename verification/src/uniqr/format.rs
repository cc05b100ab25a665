//! Rendering of runs into output records.

use vstd::prelude::*;
use vstd::string::StringExecFns;
use crate::numeral::decimal;
use crate::numeral::justified_decimal;
use crate::numeral::right_justified;
use crate::uniqr::runs::Run;

verus! {

/// Width of the field that holds the number of lines of a run.
pub const COUNT_WIDTH: usize = 4;

/// The record for a run. Without the count it is the representative,
/// untouched. With it, the count stands right-justified in a field of
/// [`COUNT_WIDTH`] characters, followed by one space and the representative.
/// No terminator is added or removed.
pub open spec fn output_record(run: Run, show_count: bool) -> Seq<char> {
    if show_count {
        right_justified(decimal(run.count), COUNT_WIDTH as nat) + seq![' '] + run.representative
    } else {
        run.representative
    }
}

/// The records of `runs`, one after the other.
pub open spec fn render(runs: Seq<Run>, show_count: bool) -> Seq<char>
    decreases runs.len(),
{
    if runs.len() == 0 {
        Seq::empty()
    } else {
        render(runs.drop_last(), show_count) + output_record(runs.last(), show_count)
    }
}

/// Renders the record for a run of `count` lines whose first line is `line`.
pub fn format_line(count: u64, line: &str, show_count: bool) -> (record: String)
    ensures
        record@ == output_record(Run { representative: line@, count: count as nat }, show_count),
{
    if show_count {
        let mut record = justified_decimal(count, COUNT_WIDTH);
        proof {
            reveal_strlit(" ");
        }
        record.append(" ");
        record.append(line);
        proof {
            assert(record@ =~= right_justified(decimal(count as nat), COUNT_WIDTH as nat) + seq![
                ' ',
            ] + line@);
        }
        record
    } else {
        String::from_str(line)
    }
}

} // verus!
