use textutils::uniqr::collapse::_run;
use std::io::Error;
use std::io::ErrorKind;
use textutils::uniqr::config::ConfigBuilder;
use textutils::uniqr::error::UniqrError;
use textutils::source::LineSource;

#[test]
fn test_two_count_same() {
    let config = ConfigBuilder::default().count(true).build();
    let input = "a\na\n";
    let expected = "   2 a\n";
    let actual = _run(&config, LineSource::from_text(input)).unwrap();
    assert_eq!(actual, expected);
}

#[test]
fn test_two_count_different() {
    let config = ConfigBuilder::default().count(true).build();
    let input = "a\nb\n";
    let expected = "   1 a\n   1 b\n";
    let actual = _run(&config, LineSource::from_text(input)).unwrap();
    assert_eq!(actual, expected);
}

#[test]
fn test_three_count_different() {
    let config = ConfigBuilder::default().count(true).build();
    let input = "a\na\nb\n";
    let expected = "   2 a\n   1 b\n";
    let actual = _run(&config, LineSource::from_text(input)).unwrap();
    assert_eq!(actual, expected);
}

#[test]
fn test_lines_with_and_without_terminator_are_not_told_apart() {
    let config = ConfigBuilder::default().count(true).build();
    let input = "a\na";
    let expected = "   2 a\n";
    let actual = _run(&config, LineSource::from_text(input)).unwrap();
    assert_eq!(actual, expected);
}

#[test]
fn pipeline_without_counts_shows_each_run_once() {
    let config = ConfigBuilder::default().build();
    let actual = _run(&config, LineSource::from_text("a\na\nb\na\n")).unwrap();
    assert_eq!(actual, "a\nb\na\n");
}

#[test]
fn pipeline_on_nothing_gives_nothing() {
    let config = ConfigBuilder::default().count(true).build();
    assert_eq!(_run(&config, LineSource::from_text("")).unwrap(), "");
}

#[test]
fn pipeline_keeps_the_first_terminator_of_a_run() {
    let config = ConfigBuilder::default().count(true).build();
    let actual = _run(&config, LineSource::from_text("a\r\na\nb")).unwrap();
    assert_eq!(actual, "   2 a\r\n   1 b");
}

#[test]
fn pipeline_on_a_failing_source_gives_the_error() {
    let config = ConfigBuilder::default().count(true).build();
    let source = LineSource::failing(
        vec!["a\n".to_string(), "b\n".to_string()],
        Error::new(ErrorKind::Other, "boom"),
    );
    match _run(&config, source) {
        Err(UniqrError::UnexpectedError(cause)) => assert_eq!(cause.to_string(), "boom"),
        other => panic!("expected a read error, got {:?}", other),
    }
}
