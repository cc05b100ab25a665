//! The first lines or bytes of a text.

use vstd::prelude::*;
use vstd::slice::slice_subrange;
use vstd::string::StringExecFns;
use vstd::utf8::decode_utf8;
use vstd::utf8::valid_utf8;
use crate::numeral::number_of;
use crate::numeral::parse_decimal;
use crate::source::LineSource;
use crate::source::ReadOutcome;
use crate::split::joined;

verus! {

/// The number of lines shown where nothing else is asked for.
pub const DEFAULT_LINES: usize = 10;

/// The command line, as parsed: the files, and how much of each to show.
pub struct Args {
    pub files: Vec<String>,
    pub lines: Option<usize>,
    pub bytes: Option<usize>,
}

/// How much of a file is shown.
#[derive(Debug, PartialEq, Eq, Structural, Clone, Copy)]
pub enum Mode {
    /// This many lines.
    Lines(usize),
    /// This many bytes.
    Bytes(usize),
}

impl Args {
    /// What the command line asks for: bytes where a number of bytes is
    /// given, else lines, [`DEFAULT_LINES`] of them unless told otherwise.
    pub fn mode(&self) -> (mode: Mode)
        ensures
            mode == match self.bytes {
                Some(bytes) => Mode::Bytes(bytes),
                None => match self.lines {
                    Some(lines) => Mode::Lines(lines),
                    None => Mode::Lines(DEFAULT_LINES),
                },
            },
    {
        if let Some(bytes) = self.bytes {
            Mode::Bytes(bytes)
        } else {
            match self.lines {
                Some(lines) => Mode::Lines(lines),
                None => Mode::Lines(DEFAULT_LINES),
            }
        }
    }
}

/// What is said of a number that is zero.
pub open spec fn not_positive_text() -> Seq<char> {
    "Value must be a positive integer, found: 0"@
}

/// What is said of a text that denotes no number that can be held.
pub open spec fn invalid_digit_text() -> Seq<char> {
    "invalid digit found in string"@
}

/// Reads a count from the command line: a decimal number above zero.
pub fn positive_num(value: &str) -> (parsed: Result<usize, String>)
    ensures
        match number_of(value@) {
            Some(n) => if n == 0 {
                parsed matches Err(text) && text@ == not_positive_text()
            } else if n <= usize::MAX {
                parsed == Ok::<usize, String>(n as usize)
            } else {
                parsed matches Err(text) && text@ == invalid_digit_text()
            },
            None => parsed matches Err(text) && text@ == invalid_digit_text(),
        },
{
    match parse_decimal(value) {
        Some(n) => if n > 0 {
            Ok(n)
        } else {
            Err(String::from_str("Value must be a positive integer, found: 0"))
        },
        None => Err(String::from_str("invalid digit found in string")),
    }
}

/// The text that `String::from_utf8_lossy` of the standard library makes of
/// `bytes`: their decoding as UTF-8, in which each stretch that is no valid
/// UTF-8 is replaced by the replacement character.
pub uninterp spec fn lossy_text(bytes: Seq<u8>) -> Seq<char>;

/// `String::from_utf8_lossy` of the standard library. The text depends on the
/// bytes alone; bytes that are valid UTF-8 are decoded as they stand.
#[verifier::external_body]
fn decode_lossy(bytes: &[u8]) -> (text: String)
    ensures
        text@ == lossy_text(bytes@),
        valid_utf8(bytes@) ==> text@ == decode_utf8(bytes@),
{
    String::from_utf8_lossy(bytes).into_owned()
}

/// How many of `len` items a request for `n` gets.
pub open spec fn head_len(len: nat, n: nat) -> nat {
    if n < len {
        n
    } else {
        len
    }
}

/// The text of the first `n` bytes of `data`, or of all of them where there
/// are fewer.
pub fn head_bytes(data: &[u8], n: usize) -> (text: String)
    ensures
        text@ == lossy_text(data@.take(head_len(data@.len(), n as nat) as int)),
{
    let k = if n < data.len() {
        n
    } else {
        data.len()
    };
    let front = slice_subrange(data, 0, k);
    proof {
        assert(front@ =~= data@.take(k as int));
    }
    decode_lossy(front)
}

/// The first lines of a source, and whether reading them failed.
pub struct Head {
    /// The lines that were read, one after the other.
    pub text: String,
    /// Whether a read failed before enough lines were read.
    pub failed: bool,
}

/// Reads the first `n` lines of `file`, or all of them where there are fewer.
/// Nothing is read beyond the `n`th line. Where the source runs out before
/// that, its end is met: a source that fails there makes the reading fail,
/// and the lines read until then are still handed back.
pub fn head_lines(file: &mut LineSource, n: u64) -> (head: Head)
    ensures
        head.text@ == joined(
            old(file).remaining().take(head_len(old(file).remaining().len(), n as nat) as int),
        ),
        final(file).remaining() == old(file).remaining().skip(
            head_len(old(file).remaining().len(), n as nat) as int,
        ),
        head.failed == (n > old(file).remaining().len() && old(file).fault() is Some),
        n <= old(file).remaining().len() ==> final(file).fault() == old(file).fault(),
{
    let ghost all = file.remaining();
    let mut text = String::new();
    let mut i: u64 = 0;
    proof {
        assert(all.take(0) =~= Seq::<Seq<char>>::empty());
        assert(all.skip(0) =~= all);
    }
    while i < n
        invariant
            i <= n,
            i <= all.len(),
            all == old(file).remaining(),
            file.remaining() == all.skip(i as int),
            file.fault() == old(file).fault(),
            text@ == joined(all.take(i as int)),
        decreases n - i,
    {
        match file.next_line() {
            ReadOutcome::Line(line) => {
                text.append(line.as_str());
                proof {
                    assert(all.take(i + 1).drop_last() =~= all.take(i as int));
                    assert(all.skip(i + 1) =~= all.skip(i as int).drop_first());
                }
            },
            ReadOutcome::EndOfStream => {
                proof {
                    assert(all.skip(i as int) =~= file.remaining());
                }
                return Head { text, failed: false };
            },
            ReadOutcome::Failed(_) => {
                proof {
                    assert(all.skip(i as int) =~= file.remaining());
                }
                return Head { text, failed: true };
            },
        }
        i += 1;
    }
    Head { text, failed: false }
}

/// The line that announces a file where several are shown.
pub open spec fn header_text(filepath: Seq<char>) -> Seq<char> {
    "==> "@ + filepath + " <=="@
}

/// Renders the line that announces `filepath`.
pub fn header(filepath: &str) -> (text: String)
    ensures
        text@ == header_text(filepath@),
{
    let mut text = String::from_str("==> ");
    text.append(filepath);
    text.append(" <==");
    text
}

/// Whether the files are announced by headers: they are where there are
/// several.
pub fn has_header(file_count: usize) -> (announced: bool)
    ensures
        announced == (file_count > 1),
{
    file_count > 1
}

/// Whether an empty line follows the file at position `i` of `file_count`:
/// it does after every file but the last, where there are several.
pub fn has_separator(i: usize, file_count: usize) -> (separated: bool)
    ensures
        separated == (file_count > 1 && i != file_count - 1),
{
    file_count > 1 && i != file_count - 1
}

} // verus!
