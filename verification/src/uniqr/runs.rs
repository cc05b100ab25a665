//! What the runs of a sequence of lines are.
//!
//! The runs are defined by reading the lines once, front to back: a line
//! either extends the run that is open, when its key equals the key of that
//! run's first line, or closes it and opens the next. The laws below show that
//! this yields the maximal groups of adjacent equal lines, in input order.

use vstd::prelude::*;
use crate::uniqr::line::same_key;

verus! {

/// A maximal group of adjacent lines that are equal under [`same_key`].
pub struct Run {
    /// The first line of the group, exactly as it was read.
    pub representative: Seq<char>,
    /// How many lines the group holds.
    pub count: nat,
}

/// The runs after one more line has been read.
pub open spec fn absorb(runs: Seq<Run>, line: Seq<char>) -> Seq<Run> {
    if runs.len() > 0 && same_key(runs.last().representative, line) {
        runs.drop_last().push(
            Run { representative: runs.last().representative, count: runs.last().count + 1 },
        )
    } else {
        runs.push(Run { representative: line, count: 1 })
    }
}

/// The runs of `lines`, in the order in which their first lines appear.
pub open spec fn runs(lines: Seq<Seq<char>>) -> Seq<Run>
    decreases lines.len(),
{
    if lines.len() == 0 {
        Seq::empty()
    } else {
        absorb(runs(lines.drop_last()), lines.last())
    }
}

/// The number of lines that `runs` hold together.
pub open spec fn total_count(runs: Seq<Run>) -> nat
    decreases runs.len(),
{
    if runs.len() == 0 {
        0
    } else {
        total_count(runs.drop_last()) + runs.last().count
    }
}

/// Index in the input of the first line of run `i`: the lines held by the
/// runs before it.
pub open spec fn run_start(runs: Seq<Run>, i: int) -> nat {
    total_count(runs.take(i))
}

/// No lines give no runs.
pub proof fn lemma_no_lines_no_runs()
    ensures
        runs(Seq::<Seq<char>>::empty()) == Seq::<Run>::empty(),
{
}

/// Reading one more line adds one to the number of lines held.
pub proof fn lemma_absorb_counts_one_more(rs: Seq<Run>, line: Seq<char>)
    ensures
        total_count(absorb(rs, line)) == total_count(rs) + 1,
{
    let next = absorb(rs, line);
    if rs.len() > 0 && same_key(rs.last().representative, line) {
        assert(next.drop_last() =~= rs.drop_last());
    } else {
        assert(next.drop_last() =~= rs);
    }
}

/// The counts of the runs add up to the number of lines.
pub proof fn lemma_counts_sum_to_line_count(lines: Seq<Seq<char>>)
    ensures
        total_count(runs(lines)) == lines.len(),
    decreases lines.len(),
{
    if lines.len() > 0 {
        lemma_counts_sum_to_line_count(lines.drop_last());
        lemma_absorb_counts_one_more(runs(lines.drop_last()), lines.last());
    }
}

/// Every run holds at least one line.
pub proof fn lemma_counts_are_positive(lines: Seq<Seq<char>>, i: int)
    requires
        0 <= i < runs(lines).len(),
    ensures
        runs(lines)[i].count >= 1,
    decreases lines.len(),
{
    if lines.len() > 0 {
        let before = runs(lines.drop_last());
        if i < before.len() - 1 || (i == before.len() - 1 && runs(lines).len() > before.len()) {
            lemma_counts_are_positive(lines.drop_last(), i);
        }
    }
}

/// There are no more runs than lines, and at least one where there is a line.
pub proof fn lemma_run_count_bounds(lines: Seq<Seq<char>>)
    ensures
        runs(lines).len() <= lines.len(),
        lines.len() > 0 ==> runs(lines).len() >= 1,
    decreases lines.len(),
{
    if lines.len() > 0 {
        lemma_run_count_bounds(lines.drop_last());
    }
}

/// Runs are maximal: two runs that follow one another never share a key.
pub proof fn lemma_adjacent_runs_differ(lines: Seq<Seq<char>>, i: int)
    requires
        0 <= i,
        i + 1 < runs(lines).len(),
    ensures
        !same_key(runs(lines)[i].representative, runs(lines)[i + 1].representative),
    decreases lines.len(),
{
    if lines.len() > 0 {
        let before = runs(lines.drop_last());
        let after = runs(lines);
        if before.len() > 0 && same_key(before.last().representative, lines.last()) {
            assert(after.len() == before.len());
            lemma_adjacent_runs_differ(lines.drop_last(), i);
        } else if i + 1 < before.len() {
            lemma_adjacent_runs_differ(lines.drop_last(), i);
        }
    }
}

/// Runs that were closed while a prefix of the input was read stay as they
/// are when the rest is read; the run that was open keeps its first line and
/// can only grow.
pub proof fn lemma_closed_runs_are_final(lines: Seq<Seq<char>>, read: int)
    requires
        0 <= read <= lines.len(),
    ensures
        runs(lines.take(read)).len() <= runs(lines).len(),
        forall|i: int|
            0 <= i < runs(lines.take(read)).len() - 1 ==> runs(lines)[i] == runs(
                lines.take(read),
            )[i],
        runs(lines.take(read)).len() > 0 ==> {
            let open = runs(lines.take(read)).last();
            let then = runs(lines)[runs(lines.take(read)).len() - 1];
            &&& then.representative == open.representative
            &&& then.count >= open.count
        },
    decreases lines.len(),
{
    if read == lines.len() {
        assert(lines.take(read) =~= lines);
    } else {
        let shorter = lines.drop_last();
        assert(shorter.take(read) =~= lines.take(read));
        lemma_closed_runs_are_final(shorter, read);
    }
}

/// A run is closed by the first line whose key differs from its own: the run
/// that was open when that line arrived is a run of the whole input, and at
/// least one more run follows it.
pub proof fn lemma_run_closes_at_boundary(lines: Seq<Seq<char>>, read: int)
    requires
        0 < read < lines.len(),
        !same_key(runs(lines.take(read)).last().representative, lines[read]),
    ensures
        runs(lines.take(read)).len() >= 1,
        runs(lines).len() > runs(lines.take(read)).len(),
        runs(lines)[runs(lines.take(read)).len() - 1] == runs(lines.take(read)).last(),
{
    let longer = lines.take(read + 1);
    assert(longer.drop_last() =~= lines.take(read));
    lemma_run_count_bounds(lines.take(read));
    lemma_closed_runs_are_final(lines, read + 1);
}

/// Each run covers a block of adjacent input lines: it starts where the runs
/// before it end, its representative is the first line of the block, and
/// every line of the block has the representative's key.
pub proof fn lemma_runs_partition_input(lines: Seq<Seq<char>>, i: int, j: int)
    requires
        0 <= i < runs(lines).len(),
        0 <= j < runs(lines)[i].count,
    ensures
        run_start(runs(lines), i) + j < lines.len(),
        runs(lines)[i].representative == lines[run_start(runs(lines), i) as int],
        same_key(runs(lines)[i].representative, lines[run_start(runs(lines), i) + j]),
    decreases lines.len(),
{
    let after = runs(lines);
    let shorter = lines.drop_last();
    let before = runs(shorter);
    lemma_counts_sum_to_line_count(shorter);
    lemma_counts_sum_to_line_count(lines);
    if before.len() > 0 && same_key(before.last().representative, lines.last()) {
        assert(after.take(i) =~= before.take(i));
        if i < before.len() - 1 {
            lemma_runs_partition_input(shorter, i, j);
        } else {
            assert(before.take(i) =~= before.drop_last());
            lemma_counts_are_positive(shorter, i);
            if j < before[i].count {
                lemma_runs_partition_input(shorter, i, j);
            } else {
                lemma_runs_partition_input(shorter, i, 0);
            }
        }
    } else {
        assert(after.take(i) =~= before.take(i));
        if i < before.len() {
            lemma_runs_partition_input(shorter, i, j);
        } else {
            assert(before.take(i) =~= before);
        }
    }
}

} // verus!
