//! Line sources: what a read can yield, and a source that is held in memory.
//!
//! The source in memory hands out its lines one by one, in order. Once they
//! are used up it reports the end of the stream, or, where it was built to
//! fail, one failed read before that.

use std::collections::VecDeque;
use vstd::prelude::*;
use crate::split::lines_of;
use crate::split::split_lines;

verus! {

/// The failure that the operating system or a reader reports for a read.
/// Nothing is known of a value of this type; it is only carried along.
#[verifier::external_type_specification]
#[verifier::external_body]
pub struct ExIoError(std::io::Error);

/// One answer of a line source.
#[derive(Debug)]
pub enum ReadOutcome {
    /// The next line, with its terminator if it has one.
    Line(String),
    /// The source holds no further line.
    EndOfStream,
    /// The read failed.
    Failed(std::io::Error),
}

/// Lines waiting to be read, and possibly a failure that is reported when
/// they are used up.
pub struct LineSource {
    pending: VecDeque<String>,
    fault: Option<std::io::Error>,
}

/// Moves `lines` into a queue, keeping their order.
fn queue_of(lines: Vec<String>) -> (pending: VecDeque<String>)
    ensures
        pending.deep_view() == lines.deep_view(),
{
    let ghost all = lines.deep_view();
    let mut lines = lines;
    let mut pending: VecDeque<String> = VecDeque::new();
    proof {
        assert(lines.deep_view() + pending.deep_view() =~= all);
    }
    while lines.len() > 0
        invariant
            lines.deep_view() + pending.deep_view() == all,
        decreases lines.len(),
    {
        let ghost before_lines = lines.deep_view();
        let ghost before_pending = pending.deep_view();
        if let Some(line) = lines.pop() {
            pending.push_front(line);
            proof {
                assert(lines.deep_view() =~= before_lines.drop_last());
                assert(pending.deep_view() =~= seq![before_lines.last()] + before_pending);
                assert(lines.deep_view() + pending.deep_view() =~= before_lines + before_pending);
            }
        }
    }
    proof {
        assert(pending.deep_view() =~= lines.deep_view() + pending.deep_view());
    }
    pending
}

impl LineSource {
    /// The lines that have not been handed out yet, in order.
    pub closed spec fn remaining(&self) -> Seq<Seq<char>> {
        self.pending.deep_view()
    }

    /// The failure that is reported once the lines are used up, if any.
    pub closed spec fn fault(&self) -> Option<std::io::Error> {
        self.fault
    }

    /// A source that hands out `lines` and then ends.
    pub fn new(lines: Vec<String>) -> (source: Self)
        ensures
            source.remaining() == lines.deep_view(),
            source.fault() is None,
    {
        LineSource { pending: queue_of(lines), fault: None }
    }

    /// A source that hands out `lines` and then fails with `cause`.
    pub fn failing(lines: Vec<String>, cause: std::io::Error) -> (source: Self)
        ensures
            source.remaining() == lines.deep_view(),
            source.fault() == Some(cause),
    {
        LineSource { pending: queue_of(lines), fault: Some(cause) }
    }

    /// A source that hands out the lines of `text` and then ends.
    pub fn from_text(text: &str) -> (source: Self)
        ensures
            source.remaining() == lines_of(text@),
            source.fault() is None,
    {
        LineSource::new(split_lines(text))
    }

    /// How many lines have not been handed out yet.
    pub fn remaining_len(&self) -> (n: usize)
        ensures
            n == self.remaining().len(),
    {
        self.pending.len()
    }

    /// Reads the next line. While lines remain, the first of them is handed
    /// out. After that a source built to fail reports its failure, once; every
    /// later read reports the end of the stream.
    pub fn next_line(&mut self) -> (outcome: ReadOutcome)
        ensures
            old(self).remaining().len() > 0 ==> {
                &&& outcome matches ReadOutcome::Line(line)
                &&& line@ == old(self).remaining()[0]
                &&& final(self).remaining() == old(self).remaining().drop_first()
                &&& final(self).fault() == old(self).fault()
            },
            old(self).remaining().len() == 0 ==> {
                &&& final(self).remaining().len() == 0
                &&& final(self).fault() is None
                &&& match old(self).fault() {
                    Some(cause) => outcome == ReadOutcome::Failed(cause),
                    None => outcome is EndOfStream,
                }
            },
    {
        match self.pending.pop_front() {
            Some(line) => {
                proof {
                    assert(final(self).remaining() =~= old(self).remaining().drop_first());
                }
                ReadOutcome::Line(line)
            },
            None => match self.fault.take() {
                Some(cause) => ReadOutcome::Failed(cause),
                None => ReadOutcome::EndOfStream,
            },
        }
    }
}

} // verus!
