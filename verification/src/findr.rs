//! Settings and matching for a search through directories.

use regex::Regex;
use vstd::prelude::*;
use vstd::string::StringExecFns;
use crate::text::same_text;

verus! {

/// A compiled regular expression of the `regex` crate. Nothing is known of a
/// value of this type; it is only carried along.
#[verifier::external_type_specification]
#[verifier::external_body]
pub struct ExRegex(regex::Regex);

/// The error of the `regex` crate for a pattern that it does not compile.
#[verifier::external_type_specification]
#[verifier::external_body]
pub struct ExRegexError(regex::Error);

/// The kinds of entries that can be asked for.
#[derive(Debug, PartialEq, Eq, Structural, Clone, Copy)]
pub enum EntryType {
    Dir,
    File,
    Link,
}

/// The command line, as parsed: where to search, the patterns for names, and
/// the letters of the kinds of entries.
pub struct Args {
    pub paths: Vec<String>,
    pub names: Vec<String>,
    pub types: Vec<String>,
}

/// The settings of one invocation.
#[derive(Debug)]
pub struct Config {
    pub paths: Vec<String>,
    pub names: Vec<Regex>,
    pub entry_types: Vec<EntryType>,
}

/// Why a command line gives no settings.
#[derive(Debug)]
pub enum ArgsError {
    /// This text stands for no kind of entry.
    InvalidType(String),
    /// This pattern did not compile, for the reason given.
    InvalidName(String, regex::Error),
}

/// What is known of the kind of a directory entry.
#[derive(Debug, PartialEq, Eq, Structural, Clone, Copy)]
pub struct FileKind {
    pub is_dir: bool,
    pub is_file: bool,
    pub is_symlink: bool,
}

/// The kind of entry that a letter of the command line stands for.
pub open spec fn entry_type_for(letter: Seq<char>) -> Option<EntryType> {
    if letter == seq!['f'] {
        Some(EntryType::File)
    } else if letter == seq!['d'] {
        Some(EntryType::Dir)
    } else if letter == seq!['l'] {
        Some(EntryType::Link)
    } else {
        None
    }
}

/// Reads the letter for a kind of entry.
pub fn entry_type(letter: &str) -> (kind: Option<EntryType>)
    ensures
        kind == entry_type_for(letter@),
{
    proof {
        reveal_strlit("f");
        reveal_strlit("d");
        reveal_strlit("l");
        assert("f"@ =~= seq!['f']);
        assert("d"@ =~= seq!['d']);
        assert("l"@ =~= seq!['l']);
    }
    if same_text(letter, "f") {
        Some(EntryType::File)
    } else if same_text(letter, "d") {
        Some(EntryType::Dir)
    } else if same_text(letter, "l") {
        Some(EntryType::Link)
    } else {
        None
    }
}

/// Reads the letters for the kinds of entries, in order. The first text that
/// stands for no kind is the error.
pub fn entry_types(letters: &Vec<String>) -> (kinds: Result<Vec<EntryType>, ArgsError>)
    ensures
        match kinds {
            Ok(list) => {
                &&& list.len() == letters.len()
                &&& forall|i: int|
                    0 <= i < letters.len() ==> entry_type_for(#[trigger] letters[i]@) == Some(
                        list[i],
                    )
            },
            Err(err) => exists|i: int|
                {
                    &&& 0 <= i < letters.len()
                    &&& entry_type_for(#[trigger] letters[i]@) is None
                    &&& err matches ArgsError::InvalidType(text)
                    &&& text@ == letters[i]@
                    &&& forall|j: int| 0 <= j < i ==> entry_type_for(#[trigger] letters[j]@) is Some
                },
        },
{
    let mut list: Vec<EntryType> = Vec::new();
    let mut i: usize = 0;
    while i < letters.len()
        invariant
            i <= letters.len(),
            list.len() == i,
            forall|j: int| 0 <= j < i ==> entry_type_for(#[trigger] letters[j]@) == Some(list[j]),
        decreases letters.len() - i,
    {
        match entry_type(letters[i].as_str()) {
            Some(kind) => {
                list.push(kind);
            },
            None => {
                return Err(ArgsError::InvalidType(letters[i].clone()));
            },
        }
        i += 1;
    }
    Ok(list)
}

/// Where to search: the paths given, or the current directory where none is.
pub fn search_paths(paths: Vec<String>) -> (roots: Vec<String>)
    ensures
        paths.len() > 0 ==> roots == paths,
        paths.len() == 0 ==> roots.deep_view() == seq![seq!['.']],
{
    if paths.len() == 0 {
        proof {
            reveal_strlit(".");
        }
        let here = String::from_str(".");
        assert(here@ =~= seq!['.']);
        let mut roots: Vec<String> = Vec::new();
        roots.push(here);
        assert(roots.deep_view() =~= seq![seq!['.']]);
        roots
    } else {
        paths
    }
}

/// `Regex::new` of the `regex` crate. Whether a pattern compiles is for the
/// crate to say, and nothing is claimed of its answer.
#[verifier::external_body]
fn compile(pattern: &str) -> (compiled: Result<Regex, regex::Error>) {
    Regex::new(pattern)
}

/// What becomes of the pattern `name` once the `regex` crate has answered: the
/// expression where it compiled, else the error that names the pattern and
/// carries the crate's reason.
pub fn name_outcome(name: &str, compiled: Result<Regex, regex::Error>) -> (outcome: Result<
    Regex,
    ArgsError,
>)
    ensures
        match compiled {
            Ok(expression) => outcome == Ok::<Regex, ArgsError>(expression),
            Err(reason) => {
                &&& outcome matches Err(ArgsError::InvalidName(text, why))
                &&& text@ == name@
                &&& why == reason
            },
        },
{
    match compiled {
        Ok(expression) => Ok(expression),
        Err(reason) => Err(ArgsError::InvalidName(String::from_str(name), reason)),
    }
}

/// Compiles the patterns for names, in order. The first pattern that does not
/// compile is the error; the settings hold one expression for each pattern
/// otherwise.
pub fn compile_names(names: &Vec<String>) -> (compiled: Result<Vec<Regex>, ArgsError>)
    ensures
        match compiled {
            Ok(list) => list.len() == names.len(),
            Err(err) => exists|i: int|
                {
                    &&& 0 <= i < names.len()
                    &&& err matches ArgsError::InvalidName(text, _)
                    &&& text@ == (#[trigger] names[i])@
                },
        },
{
    let mut list: Vec<Regex> = Vec::new();
    let mut i: usize = 0;
    while i < names.len()
        invariant
            i <= names.len(),
            list.len() == i,
        decreases names.len() - i,
    {
        match name_outcome(names[i].as_str(), compile(names[i].as_str())) {
            Ok(expression) => {
                list.push(expression);
            },
            Err(err) => {
                return Err(err);
            },
        }
        i += 1;
    }
    Ok(list)
}

/// What is said of a pattern that does not compile.
pub open spec fn invalid_name_text(name: Seq<char>) -> Seq<char> {
    "error: invalid value '"@ + name + "'"@
}

/// Renders what is said of the pattern `name` that does not compile.
pub fn describe_invalid_name(name: &str) -> (text: String)
    ensures
        text@ == invalid_name_text(name@),
{
    let mut text = String::from_str("error: invalid value '");
    text.append(name);
    text.append("'");
    text
}

/// The settings that a command line stands for. The kinds of entries are read
/// first, then the patterns are compiled; the first failure is the error.
pub fn get_args(args: Args) -> (settings: Result<Config, ArgsError>)
    ensures
        match settings {
            Ok(config) => {
                &&& args.paths.len() > 0 ==> config.paths == args.paths
                &&& args.paths.len() == 0 ==> config.paths.deep_view() == seq![seq!['.']]
                &&& config.names.len() == args.names.len()
                &&& config.entry_types.len() == args.types.len()
                &&& forall|i: int|
                    0 <= i < args.types.len() ==> entry_type_for(#[trigger] args.types[i]@)
                        == Some(config.entry_types[i])
            },
            Err(ArgsError::InvalidType(text)) => exists|i: int|
                {
                    &&& 0 <= i < args.types.len()
                    &&& entry_type_for(#[trigger] args.types[i]@) is None
                    &&& text@ == args.types[i]@
                },
            Err(ArgsError::InvalidName(text, _)) => {
                &&& forall|i: int|
                    0 <= i < args.types.len() ==> entry_type_for(
                        #[trigger] args.types[i]@,
                    ) is Some
                &&& exists|i: int| 0 <= i < args.names.len() && text@ == (#[trigger] args.names[i])@
            },
        },
{
    let entry_types = match entry_types(&args.types) {
        Ok(list) => list,
        Err(err) => {
            return Err(err);
        },
    };
    let names = match compile_names(&args.names) {
        Ok(list) => list,
        Err(err) => {
            return Err(err);
        },
    };
    let paths = search_paths(args.paths);
    Ok(Config { paths, names, entry_types })
}

/// The kind of entry that a directory entry is: a directory, else a file,
/// else a link, else none of the kinds that can be asked for.
pub open spec fn entry_type_of(kind: FileKind) -> Option<EntryType> {
    if kind.is_dir {
        Some(EntryType::Dir)
    } else if kind.is_file {
        Some(EntryType::File)
    } else if kind.is_symlink {
        Some(EntryType::Link)
    } else {
        None
    }
}

/// Whether an entry of kind `kind` is one of the kinds that the settings ask
/// for.
pub fn matches_entry_type(config: &Config, kind: &FileKind) -> (matches: bool)
    ensures
        matches == match entry_type_of(*kind) {
            Some(entry_type) => config.entry_types@.contains(entry_type),
            None => false,
        },
{
    let entry_type = if kind.is_dir {
        EntryType::Dir
    } else if kind.is_file {
        EntryType::File
    } else if kind.is_symlink {
        EntryType::Link
    } else {
        return false;
    };
    let mut i: usize = 0;
    while i < config.entry_types.len()
        invariant
            i <= config.entry_types.len(),
            entry_type_of(*kind) == Some(entry_type),
            forall|j: int| 0 <= j < i ==> config.entry_types@[j] != entry_type,
        decreases config.entry_types.len() - i,
    {
        if config.entry_types[i] == entry_type {
            assert(config.entry_types@[i as int] == entry_type);
            return true;
        }
        i += 1;
    }
    false
}

} // verus!
