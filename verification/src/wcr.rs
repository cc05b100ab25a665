//! Counting the lines, words, bytes and characters of a text.

use vstd::prelude::*;
use vstd::string::StrSliceExecFns;
use vstd::string::StringExecFns;
use vstd::utf8::encode_utf8;
use crate::numeral::decimal;
use crate::numeral::justified_decimal;
use crate::numeral::right_justified;
use crate::source::LineSource;
use crate::source::ReadOutcome;
use crate::text::same_text;
use crate::text::white_space;

verus! {

/// The counts of a text.
#[derive(Debug, PartialEq, Eq, Structural, Clone, Copy)]
pub struct FileInfo {
    pub num_lines: usize,
    pub num_words: usize,
    pub num_bytes: usize,
    pub num_chars: usize,
}

/// Counts without an upper limit.
pub struct Tally {
    pub lines: nat,
    pub words: nat,
    pub bytes: nat,
    pub chars: nat,
}

impl Tally {
    /// No lines at all.
    pub open spec fn zero() -> Tally {
        Tally { lines: 0, words: 0, bytes: 0, chars: 0 }
    }

    /// The counts of two texts taken together.
    pub open spec fn plus(self, other: Tally) -> Tally {
        Tally {
            lines: self.lines + other.lines,
            words: self.words + other.words,
            bytes: self.bytes + other.bytes,
            chars: self.chars + other.chars,
        }
    }

    /// Whether every count can be held in a `usize`.
    pub open spec fn fits(self) -> bool {
        &&& self.lines <= usize::MAX
        &&& self.words <= usize::MAX
        &&& self.bytes <= usize::MAX
        &&& self.chars <= usize::MAX
    }
}

impl View for FileInfo {
    type V = Tally;

    open spec fn view(&self) -> Tally {
        Tally {
            lines: self.num_lines as nat,
            words: self.num_words as nat,
            bytes: self.num_bytes as nat,
            chars: self.num_chars as nat,
        }
    }
}

/// Whether a word begins at position `i` of `text`: the character there is
/// not white space, and it is the first of the text or follows white space.
pub open spec fn starts_word(text: Seq<char>, i: int) -> bool {
    !white_space(text[i]) && (i == 0 || white_space(text[i - 1]))
}

/// The number of words in `text`: of maximal stretches without white space.
pub open spec fn word_count(text: Seq<char>) -> nat
    decreases text.len(),
{
    if text.len() == 0 {
        0
    } else {
        word_count(text.drop_last()) + if starts_word(text, text.len() - 1) {
            1nat
        } else {
            0nat
        }
    }
}

/// The counts of one line.
pub open spec fn measure(line: Seq<char>) -> Tally {
    Tally { lines: 1, words: word_count(line), bytes: encode_utf8(line).len(), chars: line.len() }
}

/// The counts of `lines` together.
pub open spec fn tally(lines: Seq<Seq<char>>) -> Tally
    decreases lines.len(),
{
    if lines.len() == 0 {
        Tally::zero()
    } else {
        tally(lines.drop_last()).plus(measure(lines.last()))
    }
}

/// A text has no more words than characters.
pub proof fn lemma_words_within_chars(text: Seq<char>)
    ensures
        word_count(text) <= text.len(),
    decreases text.len(),
{
    if text.len() > 0 {
        let shorter = text.drop_last();
        lemma_words_within_chars(shorter);
        assert(starts_word(text, text.len() - 1) ==> !white_space(text.last()));
    }
}

/// A text has no more characters than bytes.
pub proof fn lemma_chars_within_bytes(text: Seq<char>)
    ensures
        text.len() <= encode_utf8(text).len(),
    decreases text.len(),
{
    if text.len() > 0 {
        lemma_chars_within_bytes(text.drop_first());
    }
}

/// Of the counts of any lines, the words are no more than the characters, and
/// the characters no more than the bytes.
pub proof fn lemma_tally_is_ordered(lines: Seq<Seq<char>>)
    ensures
        tally(lines).words <= tally(lines).chars <= tally(lines).bytes,
        tally(lines).lines == lines.len(),
    decreases lines.len(),
{
    if lines.len() > 0 {
        lemma_tally_is_ordered(lines.drop_last());
        lemma_words_within_chars(lines.last());
        lemma_chars_within_bytes(lines.last());
    }
}

/// The counts of a part of the lines, taken from the front, do not exceed
/// the counts of all of them.
pub proof fn lemma_tally_grows(lines: Seq<Seq<char>>, read: int)
    requires
        0 <= read <= lines.len(),
    ensures
        tally(lines.take(read)).bytes <= tally(lines).bytes,
    decreases lines.len(),
{
    if read == lines.len() {
        assert(lines.take(read) =~= lines);
    } else {
        assert(lines.drop_last().take(read) =~= lines.take(read));
        lemma_tally_grows(lines.drop_last(), read);
    }
}

/// Counts the words of `line`.
pub fn count_words(line: &str) -> (words: usize)
    ensures
        words == word_count(line@),
{
    let chars = line.unicode_len();
    let mut words: usize = 0;
    let mut after_space = true;
    for c in it: line.chars()
        invariant
            it.seq() == line@,
            chars == line@.len(),
            words == word_count(line@.take(it.index() as int)),
            words <= it.index(),
            after_space == (it.index() == 0 || white_space(line@[it.index() - 1])),
    {
        let ghost read = it.index() as int;
        proof {
            assert(line@.take(read + 1).drop_last() =~= line@.take(read));
        }
        let white = c.is_whitespace();
        if !white && after_space {
            words += 1;
        }
        after_space = white;
    }
    proof {
        assert(line@.take(line@.len() as int) =~= line@);
    }
    words
}

impl FileInfo {
    /// The counts of the empty text.
    pub fn new() -> (info: Self)
        ensures
            info@ == Tally::zero(),
    {
        FileInfo { num_lines: 0, num_words: 0, num_bytes: 0, num_chars: 0 }
    }

    /// Whether the counts of `line` can be added without passing the largest
    /// number that a count can hold.
    pub fn has_room_for(&self, line: &str) -> (room: bool)
        ensures
            room == self@.plus(measure(line@)).fits(),
    {
        let bytes = line.as_bytes().len();
        let chars = line.unicode_len();
        let words = count_words(line);
        self.num_lines < usize::MAX && bytes <= usize::MAX - self.num_bytes && chars <= usize::MAX
            - self.num_chars && words <= usize::MAX - self.num_words
    }

    /// Adds the counts of one more line.
    pub fn add_line(&mut self, line: &str)
        requires
            old(self)@.plus(measure(line@)).fits(),
        ensures
            final(self)@ == old(self)@.plus(measure(line@)),
    {
        self.num_lines = self.num_lines + 1;
        self.num_bytes = self.num_bytes + line.as_bytes().len();
        self.num_chars = self.num_chars + line.unicode_len();
        self.num_words = self.num_words + count_words(line);
    }

    /// Adds the counts of another text.
    pub fn add(&mut self, other: &FileInfo)
        requires
            old(self)@.plus(other@).fits(),
        ensures
            final(self)@ == old(self)@.plus(other@),
    {
        self.num_lines = self.num_lines + other.num_lines;
        self.num_words = self.num_words + other.num_words;
        self.num_bytes = self.num_bytes + other.num_bytes;
        self.num_chars = self.num_chars + other.num_chars;
    }
}

/// Counts the lines, words, bytes and characters that `handle` holds. A read
/// that fails ends the counting with its error.
pub fn count(handle: LineSource) -> (result: Result<FileInfo, std::io::Error>)
    requires
        tally(handle.remaining()).bytes <= usize::MAX,
    ensures
        match handle.fault() {
            Some(cause) => result == Err::<FileInfo, std::io::Error>(cause),
            None => result matches Ok(info) && info@ == tally(handle.remaining()),
        },
{
    let ghost all = handle.remaining();
    let mut source = handle;
    let mut info = FileInfo::new();
    let total = source.remaining_len();
    proof {
        assert(all.take(0) =~= Seq::<Seq<char>>::empty());
        assert(all.skip(0) =~= all);
    }
    loop
        invariant
            all.len() == total,
            tally(all).bytes <= usize::MAX,
            0 <= info.num_lines <= all.len(),
            info@ == tally(all.take(info.num_lines as int)),
            all == handle.remaining(),
            source.remaining() == all.skip(info.num_lines as int),
            source.fault() == handle.fault(),
        decreases source.remaining().len(),
    {
        let ghost read = info.num_lines as int;
        match source.next_line() {
            ReadOutcome::Line(line) => {
                proof {
                    assert(all.take(read + 1).drop_last() =~= all.take(read));
                    assert(all.skip(read + 1) =~= all.skip(read).drop_first());
                    lemma_tally_grows(all, read + 1);
                    lemma_tally_is_ordered(all.take(read + 1));
                }
                info.add_line(line.as_str());
            },
            ReadOutcome::EndOfStream => {
                proof {
                    assert(all.take(read) =~= all);
                }
                return Ok(info);
            },
            ReadOutcome::Failed(cause) => {
                return Err(cause);
            },
        }
    }
}

/// Width of the field that holds a count.
pub const VALUE_WIDTH: usize = 8;

/// The command line, as parsed: the files, and the counts that are asked for.
pub struct Args {
    pub files: Vec<String>,
    pub lines: bool,
    pub words: bool,
    pub bytes: bool,
    pub chars: bool,
}

/// Whether bytes or characters are counted, or neither.
#[derive(Debug, PartialEq, Eq, Structural, Clone, Copy)]
pub enum ByteCharMode {
    Bytes,
    Chars,
    Neither,
}

/// The settings of one invocation.
#[derive(Debug)]
pub struct Config {
    pub files: Vec<String>,
    pub lines: bool,
    pub words: bool,
    pub mode: ByteCharMode,
}

/// Whether the command line asks for no count at all.
pub open spec fn asks_for_nothing(args: Args) -> bool {
    !args.lines && !args.words && !args.bytes && !args.chars
}

/// The settings that a command line stands for. Where it asks for no count,
/// lines, words and bytes are shown. Bytes win over characters.
pub fn get_args(args: Args) -> (config: Config)
    ensures
        config.files == args.files,
        config.lines == (args.lines || asks_for_nothing(args)),
        config.words == (args.words || asks_for_nothing(args)),
        config.mode == if args.bytes || asks_for_nothing(args) {
            ByteCharMode::Bytes
        } else if args.chars {
            ByteCharMode::Chars
        } else {
            ByteCharMode::Neither
        },
{
    let mut lines = args.lines;
    let mut words = args.words;
    let mut mode = if args.bytes {
        ByteCharMode::Bytes
    } else if args.chars {
        ByteCharMode::Chars
    } else {
        ByteCharMode::Neither
    };
    if !args.lines && !args.words && !args.bytes && !args.chars {
        lines = true;
        words = true;
        mode = ByteCharMode::Bytes;
    }
    Config { files: args.files, lines, words, mode }
}

/// The field for one count: the number right-justified in [`VALUE_WIDTH`]
/// characters where the count is shown, nothing where it is not.
pub open spec fn value_field(value: nat, show: bool) -> Seq<char> {
    if show {
        right_justified(decimal(value), VALUE_WIDTH as nat)
    } else {
        Seq::empty()
    }
}

/// Renders the field for one count.
pub fn format_value(value: usize, show: bool) -> (field: String)
    ensures
        field@ == value_field(value as nat, show),
{
    if show {
        justified_decimal(value as u64, VALUE_WIDTH)
    } else {
        String::new()
    }
}

/// The fields of the counts that the settings ask for, in the order lines,
/// words, bytes, characters.
pub open spec fn fields_text(counts: Tally, lines: bool, words: bool, mode: ByteCharMode) -> Seq<
    char,
> {
    value_field(counts.lines, lines) + value_field(counts.words, words) + value_field(
        counts.bytes,
        mode == ByteCharMode::Bytes,
    ) + value_field(counts.chars, mode == ByteCharMode::Chars)
}

/// What follows the counts of a file: a space and its path, or nothing for
/// standard input.
pub open spec fn label_text(filepath: Seq<char>) -> Seq<char> {
    if filepath == seq!['-'] {
        Seq::empty()
    } else {
        seq![' '] + filepath
    }
}

/// Renders the fields of the counts that `config` asks for.
pub fn format_fields(info: &FileInfo, config: &Config) -> (text: String)
    ensures
        text@ == fields_text(info@, config.lines, config.words, config.mode),
{
    let mut text = format_value(info.num_lines, config.lines);
    let words = format_value(info.num_words, config.words);
    let bytes = format_value(
        info.num_bytes,
        match config.mode {
            ByteCharMode::Bytes => true,
            _ => false,
        },
    );
    let chars = format_value(
        info.num_chars,
        match config.mode {
            ByteCharMode::Chars => true,
            _ => false,
        },
    );
    text.append(words.as_str());
    text.append(bytes.as_str());
    text.append(chars.as_str());
    text
}

/// Renders the report line for one file: its counts, then its label.
pub fn format_report(info: &FileInfo, config: &Config, filepath: &str) -> (text: String)
    ensures
        text@ == fields_text(info@, config.lines, config.words, config.mode) + label_text(
            filepath@,
        ),
{
    let mut text = format_fields(info, config);
    proof {
        reveal_strlit("-");
        reveal_strlit(" ");
        assert("-"@ =~= seq!['-']);
    }
    if !same_text(filepath, "-") {
        text.append(" ");
        text.append(filepath);
    }
    proof {
        assert(text@ =~= fields_text(info@, config.lines, config.words, config.mode) + label_text(
            filepath@,
        ));
    }
    text
}

/// Renders the report line for all files together: the counts, then ` total`.
pub fn format_total(info: &FileInfo, config: &Config) -> (text: String)
    ensures
        text@ == fields_text(info@, config.lines, config.words, config.mode) + " total"@,
{
    let mut text = format_fields(info, config);
    text.append(" total");
    text
}

} // verus!
