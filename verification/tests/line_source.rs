use std::io::Error;
use std::io::ErrorKind;
use textutils::source::LineSource;
use textutils::source::ReadOutcome;
use textutils::split::split_lines;

fn read_all(source: &mut LineSource) -> Vec<String> {
    let mut out = Vec::new();
    while let ReadOutcome::Line(line) = source.next_line() {
        out.push(line);
    }
    out
}

#[test]
fn text_is_cut_after_every_line_feed() {
    assert_eq!(split_lines(""), Vec::<String>::new());
    assert_eq!(split_lines("a"), vec!["a"]);
    assert_eq!(split_lines("a\n"), vec!["a\n"]);
    assert_eq!(split_lines("a\nb"), vec!["a\n", "b"]);
    assert_eq!(split_lines("a\nb\n"), vec!["a\n", "b\n"]);
    assert_eq!(split_lines("\n\n"), vec!["\n", "\n"]);
    assert_eq!(split_lines("a\r\nb\r"), vec!["a\r\n", "b\r"]);
    assert_eq!(split_lines("é\nあ\n"), vec!["é\n", "あ\n"]);
}

#[test]
fn cut_lines_join_to_the_text() {
    for text in ["", "a", "\n", "a\n\nb", "one\ntwo\nthree\n", "x\r\ny"] {
        assert_eq!(split_lines(text).concat(), text);
    }
}

#[test]
fn source_hands_out_its_lines_in_order() {
    let mut source = LineSource::new(vec!["a\n".to_string(), "b\n".to_string(), "c".to_string()]);
    assert_eq!(source.remaining_len(), 3);
    assert!(matches!(source.next_line(), ReadOutcome::Line(l) if l == "a\n"));
    assert_eq!(source.remaining_len(), 2);
    assert!(matches!(source.next_line(), ReadOutcome::Line(l) if l == "b\n"));
    assert!(matches!(source.next_line(), ReadOutcome::Line(l) if l == "c"));
    assert_eq!(source.remaining_len(), 0);
    assert!(matches!(source.next_line(), ReadOutcome::EndOfStream));
    assert!(matches!(source.next_line(), ReadOutcome::EndOfStream));
}

#[test]
fn source_from_text_reads_like_the_text() {
    let mut source = LineSource::from_text("a\nb\n\nc");
    assert_eq!(read_all(&mut source), vec!["a\n", "b\n", "\n", "c"]);
    let mut source = LineSource::from_text("");
    assert!(matches!(source.next_line(), ReadOutcome::EndOfStream));
}

#[test]
fn failing_source_fails_once_after_its_lines() {
    let mut source = LineSource::failing(vec!["a\n".to_string()], Error::new(ErrorKind::Other, "boom"));
    assert!(matches!(source.next_line(), ReadOutcome::Line(l) if l == "a\n"));
    match source.next_line() {
        ReadOutcome::Failed(cause) => assert_eq!(cause.to_string(), "boom"),
        other => panic!("expected a failure, got {:?}", other),
    }
    assert!(matches!(source.next_line(), ReadOutcome::EndOfStream));
}
