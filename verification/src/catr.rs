//! Showing the lines of a text, numbered or not, with runs of blank lines
//! squeezed or not.

use vstd::prelude::*;
use vstd::string::StringExecFns;
use crate::numeral::decimal;
use crate::numeral::justified_decimal;
use crate::numeral::right_justified;
use crate::text::blank;
use crate::text::is_blank;

verus! {

/// Width of the field that holds a line number.
pub const NUMBER_WIDTH: usize = 6;

/// The settings of one invocation.
#[derive(Debug)]
pub struct Config {
    pub files: Vec<String>,
    pub number_lines: bool,
    pub number_nonblank_lines: bool,
    pub squeeze_blank: bool,
}

/// Which lines get a number.
#[derive(Debug, PartialEq, Eq, Structural, Clone, Copy)]
pub enum LineNumbering {
    Off,
    All,
    Nonblank,
}

/// What is carried from one line to the next: the number that the next
/// numbered line that is not blank gets, and whether the last line shown was
/// blank.
#[derive(Debug, PartialEq, Eq, Structural, Clone, Copy)]
pub struct State {
    pub prev_line_num: usize,
    pub is_prev_blank: bool,
}

impl State {
    /// The state before the first line.
    pub fn new() -> (state: Self)
        ensures
            state == (State { prev_line_num: 1, is_prev_blank: false }),
    {
        Self { prev_line_num: 1, is_prev_blank: false }
    }

    /// Moves on to the next number.
    pub fn increment(&mut self)
        requires
            old(self).prev_line_num < usize::MAX,
        ensures
            *final(self) == (State { prev_line_num: (old(self).prev_line_num + 1) as usize, ..*old(self) }),
    {
        self.prev_line_num += 1;
    }

    /// Notes that the last line shown was blank.
    pub fn blank(&mut self)
        ensures
            *final(self) == (State { is_prev_blank: true, ..*old(self) }),
    {
        self.is_prev_blank = true;
    }

    /// Notes that the last line shown was not blank.
    pub fn nonblank(&mut self)
        ensures
            *final(self) == (State { is_prev_blank: false, ..*old(self) }),
    {
        self.is_prev_blank = false;
    }
}

/// The numbering that the settings ask for. Numbering every line wins over
/// numbering those that are not blank.
pub fn numbering(config: &Config) -> (kind: LineNumbering)
    ensures
        kind == if config.number_lines {
            LineNumbering::All
        } else if config.number_nonblank_lines {
            LineNumbering::Nonblank
        } else {
            LineNumbering::Off
        },
{
    if config.number_lines {
        LineNumbering::All
    } else if config.number_nonblank_lines {
        LineNumbering::Nonblank
    } else {
        LineNumbering::Off
    }
}

/// A line with its number: the number right-justified in a field of
/// [`NUMBER_WIDTH`] characters, a tab, the line.
pub open spec fn numbered(number: nat, line: Seq<char>) -> Seq<char> {
    right_justified(decimal(number), NUMBER_WIDTH as nat) + seq!['\t'] + line
}

/// Whether a line is left out: a blank line after a blank line, where blank
/// lines are squeezed.
pub open spec fn is_squeezed(squeeze_blank: bool, state: State, line: Seq<char>) -> bool {
    squeeze_blank && state.is_prev_blank && is_blank(line)
}

/// What is shown for a line that is not left out. `shown` is the number of
/// lines shown before it.
pub open spec fn shown_text(kind: LineNumbering, state: State, shown: nat, line: Seq<char>) -> Seq<
    char,
> {
    match kind {
        LineNumbering::All => numbered(shown + 1, line),
        LineNumbering::Nonblank => if is_blank(line) {
            seq!['\n']
        } else {
            numbered(state.prev_line_num as nat, line)
        },
        LineNumbering::Off => line,
    }
}

/// The state after a line that is not left out.
pub open spec fn state_after(kind: LineNumbering, state: State, line: Seq<char>) -> State {
    State {
        prev_line_num: if kind == LineNumbering::Nonblank && !is_blank(line) {
            (state.prev_line_num + 1) as usize
        } else {
            state.prev_line_num
        },
        is_prev_blank: is_blank(line),
    }
}

/// Renders `line` with `number` in front.
pub fn number_line(number: usize, line: &str) -> (text: String)
    ensures
        text@ == numbered(number as nat, line@),
{
    let mut text = justified_decimal(number as u64, NUMBER_WIDTH);
    proof {
        reveal_strlit("\t");
    }
    text.append("\t");
    text.append(line);
    proof {
        assert(text@ =~= numbered(number as nat, line@));
    }
    text
}

/// Takes the next line of a file. A line that is squeezed away gives nothing
/// and changes nothing. Any other line gives the text to show, is counted in
/// `line_num`, and leaves its mark on `state`.
pub fn show_line(
    kind: LineNumbering,
    squeeze_blank: bool,
    state: &mut State,
    line_num: &mut usize,
    line: &str,
) -> (shown: Option<String>)
    requires
        *old(line_num) < usize::MAX,
        old(state).prev_line_num < usize::MAX,
    ensures
        is_squeezed(squeeze_blank, *old(state), line@) ==> {
            &&& shown is None
            &&& *final(state) == *old(state)
            &&& *final(line_num) == *old(line_num)
        },
        !is_squeezed(squeeze_blank, *old(state), line@) ==> {
            &&& shown matches Some(text)
            &&& text@ == shown_text(kind, *old(state), *old(line_num) as nat, line@)
            &&& *final(state) == state_after(kind, *old(state), line@)
            &&& *final(line_num) == *old(line_num) + 1
        },
{
    let is_current_blank = blank(line);
    if squeeze_blank && state.is_prev_blank && is_current_blank {
        return None;
    }
    let text = match kind {
        LineNumbering::All => number_line(*line_num + 1, line),
        LineNumbering::Nonblank => {
            if is_current_blank {
                proof {
                    reveal_strlit("\n");
                }
                let text = String::from_str("\n");
                assert(text@ =~= seq!['\n']);
                text
            } else {
                let text = number_line(state.prev_line_num, line);
                state.increment();
                text
            }
        },
        LineNumbering::Off => String::from_str(line),
    };
    if is_current_blank {
        state.blank();
    } else {
        state.nonblank();
    }
    *line_num = *line_num + 1;
    Some(text)
}

} // verus!
