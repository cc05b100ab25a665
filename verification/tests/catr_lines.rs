use textutils::catr::number_line;
use textutils::catr::numbering;
use textutils::catr::show_line;
use textutils::catr::Config;
use textutils::catr::LineNumbering;
use textutils::catr::State;
use textutils::catr::NUMBER_WIDTH;

fn config(number_lines: bool, number_nonblank_lines: bool, squeeze_blank: bool) -> Config {
    Config { files: Vec::new(), number_lines, number_nonblank_lines, squeeze_blank }
}

fn show_all(kind: LineNumbering, squeeze_blank: bool, lines: &[&str]) -> String {
    let mut state = State::new();
    let mut line_num = 0;
    let mut out = String::new();
    for line in lines {
        if let Some(text) = show_line(kind, squeeze_blank, &mut state, &mut line_num, line) {
            out.push_str(&text);
        }
    }
    out
}

#[test]
fn state_starts_at_line_one() {
    let state = State::new();
    assert_eq!(state, State { prev_line_num: 1, is_prev_blank: false });
}

#[test]
fn state_changes_one_field_at_a_time() {
    let mut state = State::new();
    state.increment();
    assert_eq!(state, State { prev_line_num: 2, is_prev_blank: false });
    state.blank();
    assert_eq!(state, State { prev_line_num: 2, is_prev_blank: true });
    state.increment();
    assert_eq!(state, State { prev_line_num: 3, is_prev_blank: true });
    state.nonblank();
    assert_eq!(state, State { prev_line_num: 3, is_prev_blank: false });
}

#[test]
fn numbering_all_wins_over_nonblank() {
    assert_eq!(numbering(&config(false, false, false)), LineNumbering::Off);
    assert_eq!(numbering(&config(true, false, false)), LineNumbering::All);
    assert_eq!(numbering(&config(false, true, false)), LineNumbering::Nonblank);
    assert_eq!(numbering(&config(true, true, true)), LineNumbering::All);
}

#[test]
fn number_stands_in_six_columns_before_a_tab() {
    assert_eq!(NUMBER_WIDTH, 6);
    assert_eq!(number_line(1, "a\n"), "     1\ta\n");
    assert_eq!(number_line(123456, "a\n"), "123456\ta\n");
    assert_eq!(number_line(1234567, "a"), "1234567\ta");
}

#[test]
fn lines_pass_unchanged_without_numbering() {
    assert_eq!(show_all(LineNumbering::Off, false, &["a\n", "\n", "\n", "b"]), "a\n\n\nb");
}

#[test]
fn every_line_is_numbered() {
    assert_eq!(
        show_all(LineNumbering::All, false, &["a\n", "\n", "b\n"]),
        "     1\ta\n     2\t\n     3\tb\n"
    );
}

#[test]
fn blank_lines_get_no_number() {
    assert_eq!(
        show_all(LineNumbering::Nonblank, false, &["a\n", "\n", "  \n", "b\n"]),
        "     1\ta\n\n\n     2\tb\n"
    );
}

#[test]
fn blank_lines_are_squeezed() {
    assert_eq!(
        show_all(LineNumbering::Off, true, &["a\n", "\n", "\n", " \n", "b\n", "\n"]),
        "a\n\nb\n\n"
    );
    assert_eq!(
        show_all(LineNumbering::All, true, &["a\n", "\n", "\n", "b\n"]),
        "     1\ta\n     2\t\n     3\tb\n"
    );
}

#[test]
fn squeezed_line_changes_nothing() {
    let mut state = State { prev_line_num: 4, is_prev_blank: true };
    let mut line_num = 7;
    assert_eq!(show_line(LineNumbering::All, true, &mut state, &mut line_num, " \n"), None);
    assert_eq!(state, State { prev_line_num: 4, is_prev_blank: true });
    assert_eq!(line_num, 7);
    assert_eq!(
        show_line(LineNumbering::All, false, &mut state, &mut line_num, " \n"),
        Some("     8\t \n".to_string())
    );
    assert_eq!(line_num, 8);
    assert_eq!(
        show_line(LineNumbering::Nonblank, true, &mut state, &mut line_num, "x\n"),
        Some("     4\tx\n".to_string())
    );
    assert_eq!(state, State { prev_line_num: 5, is_prev_blank: false });
    assert_eq!(line_num, 9);
}
