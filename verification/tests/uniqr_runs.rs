use std::io::Error;
use std::io::ErrorKind;
use textutils::source::LineSource;
use textutils::source::ReadOutcome;
use textutils::uniqr::detector::Phase;
use textutils::uniqr::detector::RunDetector;
use textutils::uniqr::detector::Step;
use textutils::uniqr::detector::UniqIterItem;
use textutils::uniqr::error::UniqrError;
use textutils::uniqr::format::format_line;
use textutils::uniqr::iter::UniqIter;
use textutils::uniqr::line::lines_match;
use textutils::uniqr::line::strip_terminator;

fn lines(items: &[&str]) -> Vec<String> {
    items.iter().map(|s| s.to_string()).collect()
}

fn pull_all(iter: &mut UniqIter) -> Vec<(u64, String)> {
    let mut out = Vec::new();
    while let Some(item) = iter.next() {
        let item = item.unwrap();
        out.push((item.count, item.line));
    }
    out
}

fn runs_of(items: &[&str]) -> Vec<(u64, String)> {
    let mut iter = UniqIter::new(LineSource::new(lines(items)));
    iter.init().unwrap();
    pull_all(&mut iter)
}

#[test]
fn empty_input_gives_no_runs() {
    assert_eq!(runs_of(&[]), Vec::<(u64, String)>::new());
}

#[test]
fn two_equal_lines_give_one_run_of_two() {
    let runs = runs_of(&["a\n", "a\n"]);
    assert_eq!(runs, vec![(2, "a\n".to_string())]);
    assert_eq!(format_line(runs[0].0, &runs[0].1, true), "   2 a\n");
}

#[test]
fn two_different_lines_give_two_runs_of_one() {
    assert_eq!(runs_of(&["a\n", "b\n"]), vec![(1, "a\n".to_string()), (1, "b\n".to_string())]);
}

#[test]
fn runs_come_in_input_order() {
    assert_eq!(
        runs_of(&["a\n", "a\n", "b\n"]),
        vec![(2, "a\n".to_string()), (1, "b\n".to_string())]
    );
}

#[test]
fn last_line_without_terminator_joins_the_run() {
    assert_eq!(runs_of(&["a\n", "a"]), vec![(2, "a\n".to_string())]);
}

#[test]
fn representative_is_the_first_line_verbatim() {
    assert_eq!(runs_of(&["a", "a\n"]), vec![(2, "a".to_string())]);
    assert_eq!(runs_of(&["a\r\n", "a\n", "a"]), vec![(3, "a\r\n".to_string())]);
}

#[test]
fn equal_lines_that_are_not_adjacent_stay_apart() {
    assert_eq!(
        runs_of(&["a\n", "b\n", "a\n"]),
        vec![(1, "a\n".to_string()), (1, "b\n".to_string()), (1, "a\n".to_string())]
    );
}

#[test]
fn spaces_are_part_of_the_key() {
    assert_eq!(
        runs_of(&["a\n", " a\n", "a \n", "a\n"]),
        vec![
            (1, "a\n".to_string()),
            (1, " a\n".to_string()),
            (1, "a \n".to_string()),
            (1, "a\n".to_string())
        ]
    );
}

#[test]
fn counts_add_up_to_the_number_of_lines() {
    let input = ["x\n", "x\n", "y\n", "x\n", "x\n", "x\n", "\n", "\n", "z"];
    let runs = runs_of(&input);
    let total: u64 = runs.iter().map(|r| r.0).sum();
    assert_eq!(total, input.len() as u64);
    assert_eq!(
        runs.iter().map(|r| r.0).collect::<Vec<u64>>(),
        vec![2, 1, 3, 2, 1]
    );
}

#[test]
fn adjacent_runs_never_share_a_key() {
    let input = ["x\n", "x", "y\n", "y\r\n", "x\n", "\n", "\r\n", "z"];
    let runs = runs_of(&input);
    assert_eq!(runs.len(), 5);
    for pair in runs.windows(2) {
        assert!(!lines_match(&pair[0].1, &pair[1].1));
    }
}

#[test]
fn read_failure_after_one_run_is_reported_on_the_next_pull() {
    let source = LineSource::failing(lines(&["a\n", "b\n"]), Error::new(ErrorKind::Other, "boom"));
    let mut iter = UniqIter::new(source);
    iter.init().unwrap();
    let first = iter.next().unwrap().unwrap();
    assert_eq!((first.count, first.line.as_str()), (1, "a\n"));
    match iter.next() {
        Some(Err(UniqrError::UnexpectedError(cause))) => assert_eq!(cause.to_string(), "boom"),
        other => panic!("expected a read error, got {:?}", other),
    }
    assert!(iter.next().is_none());
    assert!(iter.next().is_none());
}

#[test]
fn read_failure_drops_the_open_run() {
    let source = LineSource::failing(lines(&["a\n", "a\n"]), Error::new(ErrorKind::Other, "boom"));
    let mut iter = UniqIter::new(source);
    assert!(matches!(iter.next(), Some(Err(UniqrError::UnexpectedError(_)))));
    assert!(iter.next().is_none());
}

#[test]
fn failure_of_the_first_read_fails_init() {
    let source = LineSource::failing(Vec::new(), Error::new(ErrorKind::Other, "boom"));
    let mut iter = UniqIter::new(source);
    assert!(matches!(iter.init(), Err(UniqrError::UnexpectedError(_))));
    assert!(iter.next().is_none());
}

#[test]
fn end_of_sequence_is_signalled_again_and_again() {
    let mut iter = UniqIter::new(LineSource::new(lines(&["a\n"])));
    iter.init().unwrap();
    assert!(iter.next().is_some());
    for _ in 0..5 {
        assert!(iter.next().is_none());
    }
}

#[test]
fn pull_without_init_reads_the_first_line_itself() {
    let mut iter = UniqIter::new(LineSource::new(lines(&["a\n", "a\n", "b\n"])));
    assert_eq!(
        pull_all(&mut iter),
        vec![(2, "a\n".to_string()), (1, "b\n".to_string())]
    );
}

#[test]
fn init_twice_reads_one_line_only() {
    let mut iter = UniqIter::new(LineSource::new(lines(&["a\n", "b\n"])));
    iter.init().unwrap();
    iter.init().unwrap();
    assert_eq!(
        pull_all(&mut iter),
        vec![(1, "a\n".to_string()), (1, "b\n".to_string())]
    );
}

#[test]
fn found_wraps_a_run() {
    let iter = UniqIter::new(LineSource::new(Vec::new()));
    let item = iter.found(3, "x\n".to_string()).unwrap().unwrap();
    assert_eq!((item.count, item.line.as_str()), (3, "x\n"));
}

#[test]
fn drain_collects_every_run() {
    let mut iter = UniqIter::new(LineSource::new(lines(&["a\n", "a\n", "b\n", "c\n", "c"])));
    let rest = iter.drain();
    assert!(rest.error.is_none());
    let got: Vec<(u64, &str)> = rest.runs.iter().map(|r| (r.count, r.line.as_str())).collect();
    assert_eq!(got, vec![(2, "a\n"), (1, "b\n"), (2, "c\n")]);
    assert!(iter.next().is_none());
    assert_eq!(iter.drain().runs.len(), 0);
}

#[test]
fn drain_of_a_failing_source_loses_the_last_run_only() {
    let source = LineSource::failing(
        lines(&["a\n", "b\n", "b\n", "c\n"]),
        Error::new(ErrorKind::Other, "boom"),
    );
    let mut iter = UniqIter::new(source);
    let rest = iter.drain();
    let got: Vec<(u64, &str)> = rest.runs.iter().map(|r| (r.count, r.line.as_str())).collect();
    assert_eq!(got, vec![(1, "a\n"), (2, "b\n")]);
    assert!(matches!(rest.error, Some(UniqrError::UnexpectedError(_))));
}

#[test]
fn drain_after_some_pulls_gives_the_rest() {
    let mut iter = UniqIter::new(LineSource::new(lines(&["a\n", "b\n", "c\n"])));
    let first = iter.next().unwrap().unwrap();
    assert_eq!(first.line, "a\n");
    let rest = iter.drain();
    let got: Vec<(u64, &str)> = rest.runs.iter().map(|r| (r.count, r.line.as_str())).collect();
    assert_eq!(got, vec![(1, "b\n"), (1, "c\n")]);
}

#[test]
fn detector_walks_through_its_phases() {
    let mut detector = RunDetector::new();
    assert_eq!(detector.phase(), Phase::Empty);
    assert!(matches!(detector.step(ReadOutcome::Line("a\n".to_string())), Step::Continue));
    assert_eq!(detector.phase(), Phase::Accumulating);
    assert!(matches!(detector.step(ReadOutcome::Line("a".to_string())), Step::Continue));
    match detector.step(ReadOutcome::Line("b\n".to_string())) {
        Step::Emit(UniqIterItem { count, line }) => assert_eq!((count, line.as_str()), (2, "a\n")),
        other => panic!("expected a run, got {:?}", other),
    }
    assert_eq!(detector.phase(), Phase::Accumulating);
    match detector.step(ReadOutcome::EndOfStream) {
        Step::Emit(UniqIterItem { count, line }) => assert_eq!((count, line.as_str()), (1, "b\n")),
        other => panic!("expected a run, got {:?}", other),
    }
    assert_eq!(detector.phase(), Phase::Finished);
    assert!(matches!(detector.step(ReadOutcome::Line("c\n".to_string())), Step::Done));
    assert!(matches!(detector.step(ReadOutcome::EndOfStream), Step::Done));
    assert_eq!(detector.phase(), Phase::Finished);
}

#[test]
fn detector_finishes_at_once_on_an_empty_source() {
    let mut detector = RunDetector::new();
    assert!(matches!(detector.step(ReadOutcome::EndOfStream), Step::Done));
    assert_eq!(detector.phase(), Phase::Finished);
}

#[test]
fn detector_fails_without_flushing() {
    let mut detector = RunDetector::new();
    assert!(detector.has_room());
    detector.step(ReadOutcome::Line("a\n".to_string()));
    assert!(detector.has_room());
    let step = detector.step(ReadOutcome::Failed(Error::new(ErrorKind::Other, "boom")));
    assert!(matches!(step, Step::Fail(UniqrError::UnexpectedError(_))));
    assert_eq!(detector.phase(), Phase::Failed);
    assert!(matches!(detector.step(ReadOutcome::EndOfStream), Step::Done));
    assert_eq!(detector.phase(), Phase::Failed);
}

#[test]
fn detector_fails_on_a_first_read_that_fails() {
    let mut detector = RunDetector::new();
    let step = detector.step(ReadOutcome::Failed(Error::new(ErrorKind::Other, "boom")));
    assert!(matches!(step, Step::Fail(UniqrError::UnexpectedError(_))));
    assert_eq!(detector.phase(), Phase::Failed);
}

#[test]
fn terminator_is_stripped_once_and_nothing_else() {
    assert_eq!(strip_terminator("a\n"), "a");
    assert_eq!(strip_terminator("a\r\n"), "a");
    assert_eq!(strip_terminator("a"), "a");
    assert_eq!(strip_terminator("a\n\n"), "a\n");
    assert_eq!(strip_terminator("a\r"), "a\r");
    assert_eq!(strip_terminator("a \n"), "a ");
    assert_eq!(strip_terminator("\n"), "");
    assert_eq!(strip_terminator("\r\n"), "");
    assert_eq!(strip_terminator(""), "");
    assert_eq!(strip_terminator("é\n"), "é");
}

#[test]
fn lines_match_on_their_keys() {
    assert!(lines_match("a\n", "a"));
    assert!(lines_match("a\r\n", "a\n"));
    assert!(lines_match("", "\n"));
    assert!(!lines_match("a\n", "b\n"));
    assert!(!lines_match("a\n", "a \n"));
    assert!(!lines_match("a\n", "a\n\n"));
    assert!(!lines_match("a\r", "a"));
    assert!(!lines_match("ab\n", "a\n"));
}
