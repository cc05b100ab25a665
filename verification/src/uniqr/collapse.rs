//! The whole pipeline on a source held in memory: lines in, records out.

use vstd::prelude::*;
use vstd::string::StringExecFns;
use crate::uniqr::config::Config;
use crate::uniqr::error::UniqrError;
use crate::uniqr::format::format_line;
use crate::uniqr::format::render;
use crate::uniqr::iter::UniqIter;
use crate::uniqr::runs::runs;
use crate::uniqr::runs::Run;
use crate::source::LineSource;

verus! {

/// Collapses the lines of `r` and renders one record per run, in input order,
/// with the counts if `config.count` is set. A source that fails yields the
/// error and no text, whatever was read before.
pub fn _run(config: &Config, r: LineSource) -> (result: Result<String, UniqrError>)
    ensures
        match r.fault() {
            Some(cause) => result == Err::<String, UniqrError>(UniqrError::UnexpectedError(cause)),
            None => result matches Ok(text) && text@ == render(runs(r.remaining()), config.count),
        },
{
    let ghost all = runs(r.remaining());
    let mut result = String::new();
    let mut uniq_iter = UniqIter::new(r);
    match uniq_iter.init() {
        Err(err) => {
            return Err(err);
        },
        Ok(()) => {},
    }
    proof {
        if uniq_iter.state() is Finished {
            uniq_iter.lemma_finished_has_emitted_all();
        }
        assert(all.take(0) =~= Seq::<Run>::empty());
    }
    loop
        invariant
            uniq_iter.wf(),
            uniq_iter.input() == r.remaining(),
            all == runs(r.remaining()),
            uniq_iter.state() is Accumulating ==> uniq_iter.fault() == r.fault(),
            uniq_iter.state() is Finished ==> r.fault() is None,
            !(uniq_iter.state() is Failed),
            !(uniq_iter.state() is Empty),
            uniq_iter.emitted() <= all.len(),
            result@ == render(all.take(uniq_iter.emitted() as int), config.count),
        decreases all.len() - uniq_iter.emitted(),
    {
        let ghost k = uniq_iter.emitted() as int;
        proof {
            if uniq_iter.state() is Finished {
                uniq_iter.lemma_finished_has_emitted_all();
            }
        }
        match uniq_iter.next() {
            None => {
                proof {
                    assert(all.take(all.len() as int) =~= all);
                }
                return Ok(result);
            },
            Some(Err(err)) => {
                return Err(err);
            },
            Some(Ok(item)) => {
                let record = format_line(item.count, item.line.as_str(), config.count);
                result.append(record.as_str());
                proof {
                    assert(all.take(k + 1).drop_last() =~= all.take(k));
                    assert(all.take(k + 1).last() == item@);
                }
            },
        }
    }
}

} // verus!
