use textutils::headr::has_header;
use textutils::headr::has_separator;
use textutils::headr::head_bytes;
use textutils::headr::head_lines;
use textutils::headr::header;
use textutils::headr::positive_num;
use textutils::headr::Args;
use textutils::headr::Mode;
use textutils::headr::DEFAULT_LINES;
use textutils::source::LineSource;
use textutils::source::ReadOutcome;

#[test]
fn positive_numbers_are_accepted() {
    assert_eq!(positive_num("1"), Ok(1));
    assert_eq!(positive_num("10"), Ok(10));
    assert_eq!(positive_num("+3"), Ok(3));
    assert_eq!(positive_num(&usize::MAX.to_string()), Ok(usize::MAX));
}

#[test]
fn zero_is_not_positive() {
    assert_eq!(
        positive_num("0"),
        Err("Value must be a positive integer, found: 0".to_string())
    );
    assert_eq!(
        positive_num("000"),
        Err("Value must be a positive integer, found: 0".to_string())
    );
}

#[test]
fn other_texts_have_an_invalid_digit() {
    for bad in ["", "x", "-1", "1.5", "3x", " 3", "18446744073709551616"] {
        assert_eq!(positive_num(bad), Err("invalid digit found in string".to_string()));
    }
}

#[test]
fn positive_num_agrees_with_the_standard_parser() {
    for text in ["7", "+7", "07", "", "+", "-7", "7 ", "0", "99999999999999999999"] {
        let expected = match text.parse::<usize>() {
            Ok(n) if n > 0 => Ok(n),
            Ok(n) => Err(format!("Value must be a positive integer, found: {}", n)),
            _ => Err("invalid digit found in string".to_string()),
        };
        assert_eq!(positive_num(text), expected);
    }
}

#[test]
fn bytes_win_over_lines() {
    let args = Args { files: Vec::new(), lines: None, bytes: None };
    assert_eq!(DEFAULT_LINES, 10);
    assert_eq!(args.mode(), Mode::Lines(10));
    let args = Args { files: Vec::new(), lines: Some(3), bytes: None };
    assert_eq!(args.mode(), Mode::Lines(3));
    let args = Args { files: Vec::new(), lines: None, bytes: Some(5) };
    assert_eq!(args.mode(), Mode::Bytes(5));
    let args = Args { files: Vec::new(), lines: Some(3), bytes: Some(5) };
    assert_eq!(args.mode(), Mode::Bytes(5));
}

#[test]
fn more_bytes_asked_than_there_are_gives_all() {
    let data = "Öne line, four words.\n".as_bytes();
    assert_eq!(head_bytes(data, 100), "Öne line, four words.\n");
    assert_eq!(head_bytes(data, data.len()), "Öne line, four words.\n");
}

#[test]
fn head_bytes_cuts_at_the_byte() {
    let data = "Öne line, four words.\n".as_bytes();
    assert_eq!(head_bytes(data, 0), "");
    assert_eq!(head_bytes(data, 2), "Ö");
    assert_eq!(head_bytes(data, 4), "Öne");
    assert_eq!(head_bytes(data, 1), "\u{fffd}");
    assert_eq!(head_bytes(b"abc", 2), "ab");
    assert_eq!(head_bytes(b"", 2), "");
}

#[test]
fn head_lines_reads_no_more_than_asked() {
    let mut file = LineSource::from_text("a\nb\nc\n");
    let head = head_lines(&mut file, 2);
    assert_eq!(head.text, "a\nb\n");
    assert!(!head.failed);
    assert_eq!(file.remaining_len(), 1);
    assert!(matches!(file.next_line(), ReadOutcome::Line(l) if l == "c\n"));
}

#[test]
fn head_lines_stops_at_the_end() {
    let mut file = LineSource::from_text("a\r\nb");
    let head = head_lines(&mut file, 10);
    assert_eq!(head.text, "a\r\nb");
    assert!(!head.failed);
    let mut file = LineSource::from_text("a\nb\n");
    assert_eq!(head_lines(&mut file, 0).text, "");
    assert_eq!(file.remaining_len(), 2);
}

#[test]
fn head_lines_reports_a_failed_read() {
    let cause = std::io::Error::new(std::io::ErrorKind::Other, "boom");
    let mut file = LineSource::failing(vec!["a\n".to_string()], cause);
    let head = head_lines(&mut file, 1);
    assert_eq!(head.text, "a\n");
    assert!(!head.failed);

    let cause = std::io::Error::new(std::io::ErrorKind::Other, "boom");
    let mut file = LineSource::failing(vec!["a\n".to_string()], cause);
    let head = head_lines(&mut file, 2);
    assert_eq!(head.text, "a\n");
    assert!(head.failed);
}

#[test]
fn files_are_announced_where_there_are_several() {
    assert_eq!(header("one.txt"), "==> one.txt <==");
    assert_eq!(header(""), "==>  <==");
    assert!(!has_header(0));
    assert!(!has_header(1));
    assert!(has_header(2));
    assert!(!has_separator(0, 1));
    assert!(has_separator(0, 2));
    assert!(!has_separator(1, 2));
    assert!(has_separator(1, 3));
}
