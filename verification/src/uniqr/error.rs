//! The errors of the utility.

use vstd::prelude::*;
use vstd::std_specs::convert::FromSpecImpl;
use vstd::string::StringExecFns;

verus! {

/// The errors of the utility.
#[derive(Debug)]
pub enum UniqrError {
    /// The input file could not be opened; the second field is its path.
    FileNotFoundError(std::io::Error, String),
    /// A read failed while lines were being collapsed.
    UnexpectedError(std::io::Error),
}

impl From<std::io::Error> for UniqrError {
    fn from(e: std::io::Error) -> (err: Self) {
        UniqrError::UnexpectedError(e)
    }
}

impl FromSpecImpl<std::io::Error> for UniqrError {
    open spec fn obeys_from_spec() -> bool {
        true
    }

    open spec fn from_spec(e: std::io::Error) -> Self {
        UniqrError::UnexpectedError(e)
    }
}

/// The text shown for a read that failed midway.
pub open spec fn unexpected_error_text() -> Seq<char> {
    "処理中に不明なエラーが発生しました"@
}

/// The text shown for a file that could not be opened: the path, a colon and a
/// space, then what the system said.
pub open spec fn missing_file_text(filepath: Seq<char>, detail: Seq<char>) -> Seq<char> {
    filepath + ": "@ + detail
}

/// Renders the message for a file at `filepath` that could not be opened, where
/// `detail` is what the system said of the failure.
pub fn describe_missing_file(filepath: &str, detail: &str) -> (text: String)
    ensures
        text@ == missing_file_text(filepath@, detail@),
{
    let mut text = String::from_str(filepath);
    text.append(": ");
    text.append(detail);
    text
}

/// The text that lists the causes of an error: for each cause, in order, the
/// words `Caused by: ` and the cause, with nothing in between.
pub open spec fn chain_text(causes: Seq<Seq<char>>) -> Seq<char>
    decreases causes.len(),
{
    if causes.len() == 0 {
        Seq::empty()
    } else {
        chain_text(causes.drop_last()) + "Caused by: "@ + causes.last()
    }
}

/// Renders the causes of an error, the nearest first.
pub fn error_chain(causes: &Vec<String>) -> (text: String)
    ensures
        text@ == chain_text(causes.deep_view()),
{
    let mut text = String::new();
    let mut i: usize = 0;
    proof {
        assert(causes.deep_view().take(0) =~= Seq::<Seq<char>>::empty());
    }
    while i < causes.len()
        invariant
            i <= causes.len(),
            text@ == chain_text(causes.deep_view().take(i as int)),
        decreases causes.len() - i,
    {
        text.append("Caused by: ");
        text.append(causes[i].as_str());
        proof {
            let longer = causes.deep_view().take(i + 1);
            assert(longer.drop_last() =~= causes.deep_view().take(i as int));
            assert(longer.last() == causes[i as int]@);
        }
        i += 1;
    }
    proof {
        assert(causes.deep_view().take(causes.len() as int) =~= causes.deep_view());
    }
    text
}

impl UniqrError {
    /// The message for the user. For a file that could not be opened it begins
    /// with the path, a colon and a space; what follows is the system's own
    /// description of the failure.
    pub fn message(&self) -> (text: String)
        ensures
            self is UnexpectedError ==> text@ == unexpected_error_text(),
            self matches UniqrError::FileNotFoundError(_, filepath) ==> (filepath@ + ": "@).is_prefix_of(
                text@,
            ),
    {
        match self {
            UniqrError::UnexpectedError(_) => String::from_str("処理中に不明なエラーが発生しました"),
            UniqrError::FileNotFoundError(e, filepath) => {
                let detail = e.to_string();
                describe_missing_file(filepath.as_str(), detail.as_str())
            },
        }
    }
}

} // verus!
