//! The run detector: a state machine that is fed what the reads of a line
//! source yield, one outcome at a time, and hands back each run as it closes.
//!
//! The detector does no reading itself. Whoever owns the source reads a line,
//! passes the outcome to [`RunDetector::step`] and acts on the answer. One line
//! of lookahead is all it needs: a run is closed by the first line that
//! differs from it, and that line opens the next run.

use vstd::prelude::*;
use crate::source::ReadOutcome;
use crate::uniqr::error::UniqrError;
use crate::uniqr::line::lines_match;
use crate::uniqr::line::same_key;
use crate::uniqr::runs::absorb;
use crate::uniqr::runs::runs;
use crate::uniqr::runs::Run;

verus! {

/// A closed run, as it is handed out.
#[derive(Debug)]
pub struct UniqIterItem {
    /// How many lines the run holds.
    pub count: u64,
    /// The first line of the run, exactly as it was read.
    pub line: String,
}

impl View for UniqIterItem {
    type V = Run;

    open spec fn view(&self) -> Run {
        Run { representative: self.line@, count: self.count as nat }
    }
}

/// Where a detector stands.
#[derive(Clone, Copy, PartialEq, Eq, Structural, Debug)]
pub enum Phase {
    /// No line has been read yet.
    Empty,
    /// A run is open.
    Accumulating,
    /// The source has ended and every run has been handed out.
    Finished,
    /// A read has failed. The run that was open then is lost.
    Failed,
}

/// The state of a detector: its phase, and the run that is open while it is
/// accumulating.
pub enum DetectorState {
    Empty,
    Accumulating(Run),
    Finished,
    Failed,
}

impl DetectorState {
    /// Whether the detector has come to rest.
    pub open spec fn is_terminal(self) -> bool {
        self is Finished || self is Failed
    }
}

/// The state that follows `state` when a read has yielded `outcome`.
pub open spec fn next_state(state: DetectorState, outcome: ReadOutcome) -> DetectorState {
    match state {
        DetectorState::Finished => DetectorState::Finished,
        DetectorState::Failed => DetectorState::Failed,
        DetectorState::Empty => match outcome {
            ReadOutcome::Line(line) => DetectorState::Accumulating(
                Run { representative: line@, count: 1 },
            ),
            ReadOutcome::EndOfStream => DetectorState::Finished,
            ReadOutcome::Failed(_) => DetectorState::Failed,
        },
        DetectorState::Accumulating(run) => match outcome {
            ReadOutcome::Line(line) => if same_key(run.representative, line@) {
                DetectorState::Accumulating(
                    Run { representative: run.representative, count: run.count + 1 },
                )
            } else {
                DetectorState::Accumulating(Run { representative: line@, count: 1 })
            },
            ReadOutcome::EndOfStream => DetectorState::Finished,
            ReadOutcome::Failed(_) => DetectorState::Failed,
        },
    }
}

/// The run that `outcome` closes, if it closes one: the open run, when the
/// source ends or a line with another key arrives. A failed read closes none.
pub open spec fn closed_run(state: DetectorState, outcome: ReadOutcome) -> Option<Run> {
    match state {
        DetectorState::Accumulating(run) => match outcome {
            ReadOutcome::Line(line) => if same_key(run.representative, line@) {
                None
            } else {
                Some(run)
            },
            ReadOutcome::EndOfStream => Some(run),
            ReadOutcome::Failed(_) => None,
        },
        _ => None,
    }
}

/// The state of a detector that has been fed the lines `seen` and nothing
/// else: the last of their runs is open.
pub open spec fn state_after(seen: Seq<Seq<char>>) -> DetectorState {
    if seen.len() == 0 {
        DetectorState::Empty
    } else {
        DetectorState::Accumulating(runs(seen).last())
    }
}

/// Feeding a line to a detector that has seen `seen` leaves it as if it had
/// seen that line too. It closes a run exactly when the line opens a new one,
/// and the run it closes is the last run of `seen`.
pub proof fn lemma_step_follows_runs(seen: Seq<Seq<char>>, line: String)
    ensures
        next_state(state_after(seen), ReadOutcome::Line(line)) == state_after(seen.push(line@)),
        runs(seen.push(line@)) == absorb(runs(seen), line@),
        closed_run(state_after(seen), ReadOutcome::Line(line)) == if runs(seen.push(line@)).len()
            > runs(seen).len() && seen.len() > 0 {
            Some(runs(seen).last())
        } else {
            None
        },
{
    let longer = seen.push(line@);
    assert(longer.drop_last() =~= seen);
    if seen.len() > 0 {
        crate::uniqr::runs::lemma_run_count_bounds(seen);
    }
}

/// When the source ends, a detector that has seen `seen` closes the last run
/// of `seen`; where it has seen nothing, it closes nothing.
pub proof fn lemma_end_closes_last_run(seen: Seq<Seq<char>>)
    ensures
        closed_run(state_after(seen), ReadOutcome::EndOfStream) == if seen.len() > 0 {
            Some(runs(seen).last())
        } else {
            None
        },
        next_state(state_after(seen), ReadOutcome::EndOfStream) is Finished,
{
}

/// What a detector answers to one outcome.
#[derive(Debug)]
pub enum Step {
    /// Nothing is closed yet: read on.
    Continue,
    /// This run is closed.
    Emit(UniqIterItem),
    /// There is nothing more to hand out.
    Done,
    /// The read failed.
    Fail(UniqrError),
}

/// The run detector.
pub struct RunDetector {
    phase: Phase,
    representative: String,
    count: u64,
}

impl View for RunDetector {
    type V = DetectorState;

    closed spec fn view(&self) -> DetectorState {
        match self.phase {
            Phase::Empty => DetectorState::Empty,
            Phase::Accumulating => DetectorState::Accumulating(
                Run { representative: self.representative@, count: self.count as nat },
            ),
            Phase::Finished => DetectorState::Finished,
            Phase::Failed => DetectorState::Failed,
        }
    }
}

impl RunDetector {
    /// A detector that has read nothing.
    pub fn new() -> (detector: Self)
        ensures
            detector@ is Empty,
    {
        RunDetector { phase: Phase::Empty, representative: String::new(), count: 0 }
    }

    /// The phase the detector is in.
    pub fn phase(&self) -> (phase: Phase)
        ensures
            phase is Empty <==> self@ is Empty,
            phase is Accumulating <==> self@ is Accumulating,
            phase is Finished <==> self@ is Finished,
            phase is Failed <==> self@ is Failed,
    {
        self.phase
    }

    /// Whether one more line can be counted into the open run.
    pub fn has_room(&self) -> (room: bool)
        ensures
            room == (self@ matches DetectorState::Accumulating(run) ==> run.count < u64::MAX),
    {
        match self.phase {
            Phase::Accumulating => self.count < u64::MAX,
            _ => true,
        }
    }

    /// Takes the outcome of one read. The detector moves to
    /// `next_state(state, outcome)`, and the answer says what the caller is to
    /// do: a run is handed out exactly when the outcome closes one, a failed
    /// read is reported as it comes, and a detector that has come to rest
    /// answers `Done` whatever it is fed.
    pub fn step(&mut self, outcome: ReadOutcome) -> (step: Step)
        requires
            next_state(old(self)@, outcome) matches DetectorState::Accumulating(run)
                ==> run.count <= u64::MAX,
        ensures
            final(self)@ == next_state(old(self)@, outcome),
            match step {
                Step::Emit(item) => closed_run(old(self)@, outcome) == Some(item@),
                Step::Fail(err) => {
                    &&& !old(self)@.is_terminal()
                    &&& outcome matches ReadOutcome::Failed(cause)
                    &&& err == UniqrError::UnexpectedError(cause)
                },
                Step::Continue => {
                    &&& !old(self)@.is_terminal()
                    &&& outcome is Line
                    &&& closed_run(old(self)@, outcome) is None
                },
                Step::Done => {
                    ||| old(self)@.is_terminal()
                    ||| (old(self)@ is Empty && outcome is EndOfStream)
                },
            },
    {
        match self.phase {
            Phase::Finished => Step::Done,
            Phase::Failed => Step::Done,
            Phase::Empty => match outcome {
                ReadOutcome::Line(line) => {
                    self.representative = line;
                    self.count = 1;
                    self.phase = Phase::Accumulating;
                    Step::Continue
                },
                ReadOutcome::EndOfStream => {
                    self.phase = Phase::Finished;
                    Step::Done
                },
                ReadOutcome::Failed(cause) => {
                    self.phase = Phase::Failed;
                    Step::Fail(UniqrError::UnexpectedError(cause))
                },
            },
            Phase::Accumulating => match outcome {
                ReadOutcome::Line(line) => {
                    if lines_match(self.representative.as_str(), line.as_str()) {
                        self.count = self.count + 1;
                        Step::Continue
                    } else {
                        let mut line = line;
                        core::mem::swap(&mut self.representative, &mut line);
                        let count = self.count;
                        self.count = 1;
                        Step::Emit(UniqIterItem { count, line })
                    }
                },
                ReadOutcome::EndOfStream => {
                    let mut line = String::new();
                    core::mem::swap(&mut self.representative, &mut line);
                    self.phase = Phase::Finished;
                    Step::Emit(UniqIterItem { count: self.count, line })
                },
                ReadOutcome::Failed(cause) => {
                    self.phase = Phase::Failed;
                    Step::Fail(UniqrError::UnexpectedError(cause))
                },
            },
        }
    }
}

} // verus!
