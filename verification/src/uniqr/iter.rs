//! The pull-based producer of runs.
//!
//! A [`UniqIter`] owns a line source and a run detector. Each pull reads as
//! many lines as it takes to close one run, so the caller sees either the next
//! run, a read error, or the end of the sequence.

use vstd::prelude::*;
use crate::uniqr::detector::lemma_step_follows_runs;
use crate::uniqr::detector::DetectorState;
use crate::uniqr::detector::Phase;
use crate::uniqr::detector::RunDetector;
use crate::uniqr::detector::Step;
use crate::uniqr::detector::UniqIterItem;
use crate::uniqr::error::UniqrError;
use crate::uniqr::line::same_key;
use crate::uniqr::runs::lemma_closed_runs_are_final;
use crate::uniqr::runs::lemma_counts_sum_to_line_count;
use crate::uniqr::runs::lemma_run_closes_at_boundary;
use crate::uniqr::runs::lemma_run_count_bounds;
use crate::uniqr::runs::run_start;
use crate::uniqr::runs::runs;
use crate::uniqr::runs::Run;
use crate::source::LineSource;

verus! {

/// The last run holds no more lines than all runs together.
proof fn lemma_last_count_is_bounded(lines: Seq<Seq<char>>)
    requires
        lines.len() > 0,
    ensures
        runs(lines).len() > 0,
        runs(lines).last().count <= lines.len(),
{
    lemma_run_count_bounds(lines);
    lemma_counts_sum_to_line_count(lines);
}

/// Produces the runs of a line source, one per pull, in input order.
pub struct UniqIter {
    reader: LineSource,
    detector: RunDetector,
    input: Ghost<Seq<Seq<char>>>,
    emitted: Ghost<nat>,
}

impl UniqIter {
    /// All the lines of the source, those read already and those to come.
    pub closed spec fn input(&self) -> Seq<Seq<char>> {
        self.input@
    }

    /// The failure that the source reports after its last line, if any.
    pub closed spec fn fault(&self) -> Option<std::io::Error> {
        self.reader.fault()
    }

    /// The state of the detector.
    pub closed spec fn state(&self) -> DetectorState {
        self.detector@
    }

    /// How many runs have been handed out.
    pub closed spec fn emitted(&self) -> nat {
        self.emitted@
    }

    /// How many lines have been read from the source.
    pub closed spec fn lines_read(&self) -> nat {
        (self.input@.len() - self.reader.remaining().len()) as nat
    }

    /// What holds of every iterator between calls: the lines still in the
    /// source are the tail of the input, the detector has seen exactly the
    /// lines before that tail, and the runs that were closed on the way have
    /// been handed out.
    pub closed spec fn wf(&self) -> bool {
        let seen = self.input@.take(self.lines_read() as int);
        &&& self.reader.remaining().len() <= self.input@.len() <= usize::MAX
        &&& self.input@.skip(self.lines_read() as int) == self.reader.remaining()
        &&& match self.detector@ {
            DetectorState::Empty => self.lines_read() == 0 && self.emitted@ == 0,
            DetectorState::Accumulating(run) => {
                &&& self.lines_read() > 0
                &&& run == runs(seen).last()
                &&& self.emitted@ + 1 == runs(seen).len()
            },
            DetectorState::Finished => {
                &&& self.lines_read() == self.input@.len()
                &&& self.emitted@ == runs(self.input@).len()
            },
            DetectorState::Failed => true,
        }
    }

    /// An iterator that is finished has handed out every run of its input.
    pub proof fn lemma_finished_has_emitted_all(&self)
        requires
            self.wf(),
            self.state() is Finished,
        ensures
            self.emitted() == runs(self.input()).len(),
    {
    }

    /// An iterator over the lines of `reader`. Nothing is read yet.
    pub fn new(reader: LineSource) -> (iter: Self)
        ensures
            iter.wf(),
            iter.input() == reader.remaining(),
            iter.fault() == reader.fault(),
            iter.state() is Empty,
            iter.emitted() == 0,
            iter.lines_read() == 0,
    {
        let ghost input = reader.remaining();
        let n = reader.remaining_len();
        let iter = UniqIter {
            reader,
            detector: RunDetector::new(),
            input: Ghost(input),
            emitted: Ghost(0),
        };
        proof {
            assert(input.skip(0) =~= input);
        }
        iter
    }

    /// Wraps a closed run as the answer of a pull.
    pub fn found(&self, count: u64, line: String) -> (answer: Option<Result<UniqIterItem, UniqrError>>)
        ensures
            answer matches Some(Ok(item)) && item.count == count && item.line == line,
    {
        Some(Ok(UniqIterItem { count, line }))
    }

    /// Reads the first line, if that has not been done. An empty source
    /// finishes the iterator at once; a first read that fails is reported and
    /// leaves the iterator failed.
    pub fn init(&mut self) -> (outcome: Result<(), UniqrError>)
        requires
            old(self).wf(),
        ensures
            final(self).wf(),
            final(self).input() == old(self).input(),
            final(self).emitted() == old(self).emitted(),
            !(old(self).state() is Empty) ==> {
                &&& outcome is Ok
                &&& final(self).state() == old(self).state()
                &&& final(self).fault() == old(self).fault()
                &&& final(self).lines_read() == old(self).lines_read()
            },
            old(self).state() is Empty ==> if old(self).input().len() > 0 {
                &&& outcome is Ok
                &&& final(self).state() == DetectorState::Accumulating(
                    Run { representative: old(self).input()[0], count: 1 },
                )
                &&& final(self).fault() == old(self).fault()
                &&& final(self).lines_read() == 1
            } else {
                match old(self).fault() {
                    Some(cause) => {
                        &&& outcome == Err::<(), UniqrError>(UniqrError::UnexpectedError(cause))
                        &&& final(self).state() is Failed
                    },
                    None => outcome is Ok && final(self).state() is Finished,
                }
            },
    {
        match self.detector.phase() {
            Phase::Empty => {},
            _ => {
                return Ok(());
            },
        }
        let read = self.reader.next_line();
        proof {
            if read is Line {
                let line = read->Line_0;
                lemma_step_follows_runs(Seq::empty(), line);
                assert(self.input@.take(1) =~= Seq::<Seq<char>>::empty().push(line@));
                assert(self.input@.skip(1) =~= self.input@.skip(0).drop_first());
            } else {
                assert(self.input@.skip(0) =~= self.input@);
            }
        }
        let step = self.detector.step(read);
        proof {
            assert(self.input@.skip(self.lines_read() as int) =~= self.reader.remaining());
            if self.lines_read() == 1 {
                lemma_run_count_bounds(self.input@.take(1));
            }
        }
        match step {
            Step::Fail(err) => Err(err),
            _ => Ok(()),
        }
    }

    /// Pulls the next run.
    ///
    /// With `all` the runs of the whole input and `k` the number of runs
    /// handed out so far, the pull hands out `all[k]`. It reads up to and
    /// including the line that closes that run, which is the first line of
    /// the run after it. Where `all[k]` is the last run, the source is read to
    /// its end: if the source fails there, the error is the answer and the
    /// open run is dropped; otherwise the last run is handed out.
    /// After the last run, after an error, and on an input without lines the
    /// answer is `None`, and it stays `None`: an iterator at rest reads
    /// nothing.
    pub fn next(&mut self) -> (answer: Option<Result<UniqIterItem, UniqrError>>)
        requires
            old(self).wf(),
        ensures
            final(self).wf(),
            final(self).input() == old(self).input(),
            old(self).state().is_terminal() ==> {
                &&& answer is None
                &&& final(self).state() == old(self).state()
                &&& final(self).emitted() == old(self).emitted()
                &&& final(self).fault() == old(self).fault()
                &&& final(self).lines_read() == old(self).lines_read()
            },
            !old(self).state().is_terminal() ==> {
                let all = runs(old(self).input());
                let k = old(self).emitted() as int;
                &&& k <= all.len()
                &&& all.len() > 0 ==> k < all.len()
                &&& if k + 1 < all.len() {
                    &&& answer matches Some(Ok(item))
                    &&& item@ == all[k]
                    &&& final(self).emitted() == k + 1
                    &&& final(self).state() is Accumulating
                    &&& final(self).fault() == old(self).fault()
                    &&& final(self).lines_read() == run_start(all, k + 1) + 1
                } else if old(self).fault() is Some {
                    &&& answer matches Some(Err(UniqrError::UnexpectedError(cause)))
                    &&& old(self).fault() == Some(cause)
                    &&& final(self).emitted() == k
                    &&& final(self).state() is Failed
                    &&& final(self).lines_read() == old(self).input().len()
                } else if k < all.len() {
                    &&& answer matches Some(Ok(item))
                    &&& item@ == all[k]
                    &&& final(self).emitted() == k + 1
                    &&& final(self).state() is Finished
                    &&& final(self).lines_read() == old(self).input().len()
                } else {
                    &&& answer is None
                    &&& final(self).emitted() == k
                    &&& final(self).state() is Finished
                    &&& final(self).lines_read() == old(self).input().len()
                }
            },
    {
        match self.detector.phase() {
            Phase::Finished => {
                return None;
            },
            Phase::Failed => {
                return None;
            },
            _ => {},
        }
        let ghost input = self.input@;
        proof {
            lemma_closed_runs_are_final(input, self.lines_read() as int);
        }
        loop
            invariant
                self.wf(),
                self.input@ == input,
                input == old(self).input(),
                !self.detector@.is_terminal(),
                !old(self).state().is_terminal(),
                self.emitted@ == old(self).emitted(),
                self.reader.fault() == old(self).fault(),
            decreases self.reader.remaining().len(),
        {
            let ghost read = self.lines_read() as int;
            let ghost seen = input.take(read);
            let ghost rest = self.reader.remaining();
            let outcome = self.reader.next_line();
            proof {
                if rest.len() > 0 {
                    assert(input[read] == rest[0]);
                    assert(input.take(read + 1) =~= seen.push(rest[0]));
                    assert(input.skip(read + 1) =~= rest.drop_first());
                    lemma_last_count_is_bounded(input.take(read + 1));
                    if outcome is Line {
                        lemma_step_follows_runs(seen, outcome->Line_0);
                    }
                    lemma_closed_runs_are_final(input, read + 1);
                    if read > 0 && read < input.len() {
                        if !same_key(runs(seen).last().representative, input[read]) {
                            lemma_run_closes_at_boundary(input, read);
                            lemma_counts_sum_to_line_count(seen);
                            assert(runs(input).take(runs(seen).len() as int) =~= runs(seen));
                        }
                    }
                } else {
                    assert(seen =~= input);
                    lemma_run_count_bounds(input);
                }
            }
            let step = self.detector.step(outcome);
            proof {
                assert(self.input@.skip(self.lines_read() as int) =~= self.reader.remaining());
            }
            match step {
                Step::Continue => {},
                Step::Emit(item) => {
                    proof {
                        self.emitted@ = self.emitted@ + 1;
                    }
                    return self.found(item.count, item.line);
                },
                Step::Done => {
                    return None;
                },
                Step::Fail(err) => {
                    return Some(Err(err));
                },
            }
        }
    }

    /// Pulls until the iterator is at rest, and hands back what came out: the
    /// runs in order, and the error if the source failed. A source that fails
    /// loses its last run, the one that was open when the read failed, and
    /// nothing else.
    pub fn drain(&mut self) -> (rest: Drained)
        requires
            old(self).wf(),
        ensures
            final(self).wf(),
            final(self).input() == old(self).input(),
            final(self).state().is_terminal(),
            old(self).state().is_terminal() ==> rest.runs.len() == 0 && rest.error is None,
            !old(self).state().is_terminal() ==> {
                let all = runs(old(self).input());
                let k = old(self).emitted() as int;
                let end = if old(self).fault() is Some && all.len() > 0 {
                    all.len() - 1
                } else {
                    all.len() as int
                };
                &&& k <= end
                &&& rest.runs.len() == end - k
                &&& forall|i: int| 0 <= i < end - k ==> (#[trigger] rest.runs[i])@ == all[k + i]
                &&& match old(self).fault() {
                    Some(cause) => rest.error == Some(UniqrError::UnexpectedError(cause)),
                    None => rest.error is None,
                }
            },
    {
        let mut found: Vec<UniqIterItem> = Vec::new();
        let ghost all = runs(self.input@);
        let ghost k = self.emitted@ as int;
        proof {
            if !self.detector@.is_terminal() {
                lemma_closed_runs_are_final(self.input@, self.lines_read() as int);
            }
        }
        loop
            invariant
                self.wf(),
                self.input() == old(self).input(),
                all == runs(old(self).input()),
                k == old(self).emitted(),
                old(self).state().is_terminal() ==> self.state() == old(self).state() && found.len()
                    == 0,
                !old(self).state().is_terminal() ==> {
                    &&& k + found.len() <= all.len()
                    &&& forall|i: int| 0 <= i < found.len() ==> (#[trigger] found[i])@ == all[k + i]
                    &&& !self.state().is_terminal() ==> self.emitted() == k + found.len()
                        && self.fault() == old(self).fault()
                    &&& self.state().is_terminal() ==> {
                        &&& self.state() is Finished
                        &&& old(self).fault() is None
                        &&& k + found.len() == all.len()
                    }
                },
            decreases
                    all.len() - found.len() + if self.state().is_terminal() {
                        0int
                    } else {
                        1int
                    },
        {
            match self.next() {
                Some(Ok(item)) => {
                    found.push(item);
                },
                Some(Err(err)) => {
                    return Drained { runs: found, error: Some(err) };
                },
                None => {
                    return Drained { runs: found, error: None };
                },
            }
        }
    }
}

/// What came out of an iterator that was pulled until it was at rest.
#[derive(Debug)]
pub struct Drained {
    /// The runs that were handed out, in order.
    pub runs: Vec<UniqIterItem>,
    /// The error that ended the pulling, if one did.
    pub error: Option<UniqrError>,
}

} // verus!
