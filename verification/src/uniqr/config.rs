//! What the utility is asked to do.

use vstd::prelude::*;
use vstd::std_specs::convert::FromSpecImpl;
use vstd::string::StringExecFns;
use crate::text::same_text;

verus! {

/// The command line, as parsed: the input path, the output path, and the two
/// switches.
pub struct Args {
    pub in_file: Option<String>,
    pub out_file: Option<String>,
    pub count: bool,
    pub debug: bool,
}

/// The settings of one invocation.
#[derive(Clone, Debug)]
pub struct Config {
    /// Where the lines come from; `-` or nothing stands for standard input.
    pub in_file: Option<String>,
    /// Where the records go; nothing stands for standard output.
    pub out_file: Option<String>,
    /// Whether each record starts with the number of lines in its run.
    pub count: bool,
    /// Whether an error is shown with its causes.
    pub debug: bool,
}

/// The settings as plain values.
pub struct Settings {
    pub in_file: Option<Seq<char>>,
    pub out_file: Option<Seq<char>>,
    pub count: bool,
    pub debug: bool,
}

impl View for Args {
    type V = Settings;

    open spec fn view(&self) -> Settings {
        Settings {
            in_file: self.in_file.deep_view(),
            out_file: self.out_file.deep_view(),
            count: self.count,
            debug: self.debug,
        }
    }
}

impl View for Config {
    type V = Settings;

    open spec fn view(&self) -> Settings {
        Settings {
            in_file: self.in_file.deep_view(),
            out_file: self.out_file.deep_view(),
            count: self.count,
            debug: self.debug,
        }
    }
}

impl Config {
    /// Settings with the given paths and count switch; causes are not shown.
    pub fn new(in_file: Option<String>, out_file: Option<String>, count: bool) -> (config: Self)
        ensures
            config@ == (Settings {
                in_file: in_file.deep_view(),
                out_file: out_file.deep_view(),
                count,
                debug: false,
            }),
    {
        Config { in_file, out_file, count, debug: false }
    }
}

/// The path that the lines are read from: the input file of the settings,
/// or the path for standard input where none is set.
pub fn input_path(config: &Config) -> (path: String)
    ensures
        path@ == match config.in_file {
            Some(file) => file@,
            None => stdin_path(),
        },
{
    match &config.in_file {
        Some(file) => file.clone(),
        None => {
            proof {
                reveal_strlit("-");
            }
            let dash = String::from_str("-");
            assert(dash@ =~= stdin_path());
            dash
        },
    }
}

/// Whether `filepath` stands for standard input.
pub fn is_stdin(filepath: &str) -> (stdin: bool)
    ensures
        stdin == (filepath@ == stdin_path()),
{
    proof {
        reveal_strlit("-");
        assert("-"@ =~= stdin_path());
    }
    same_text(filepath, "-")
}

impl From<Args> for Config {
    fn from(args: Args) -> (config: Self) {
        Config {
            in_file: args.in_file,
            out_file: args.out_file,
            count: args.count,
            debug: args.debug,
        }
    }
}

impl FromSpecImpl<Args> for Config {
    open spec fn obeys_from_spec() -> bool {
        true
    }

    open spec fn from_spec(args: Args) -> Self {
        Config {
            in_file: args.in_file,
            out_file: args.out_file,
            count: args.count,
            debug: args.debug,
        }
    }
}

/// Builds a [`Config`] step by step. Every setter replaces one setting and
/// keeps the others.
pub struct ConfigBuilder {
    in_file: Option<String>,
    out_file: Option<String>,
    count: bool,
    debug: bool,
}

impl View for ConfigBuilder {
    type V = Settings;

    closed spec fn view(&self) -> Settings {
        Settings {
            in_file: self.in_file.deep_view(),
            out_file: self.out_file.deep_view(),
            count: self.count,
            debug: self.debug,
        }
    }
}

/// The settings a builder starts from: no paths, both switches off.
pub open spec fn default_settings() -> Settings {
    Settings { in_file: None, out_file: None, count: false, debug: false }
}

/// The path that stands for standard input.
pub open spec fn stdin_path() -> Seq<char> {
    seq!['-']
}

impl ConfigBuilder {
    /// A builder with the default settings.
    pub fn new() -> (builder: Self)
        ensures
            builder@ == default_settings(),
    {
        ConfigBuilder { in_file: None, out_file: None, count: false, debug: false }
    }

    /// Reads from standard input.
    pub fn stdin(self) -> (builder: Self)
        ensures
            builder@ == (Settings { in_file: Some(stdin_path()), ..self@ }),
    {
        proof {
            reveal_strlit("-");
        }
        let dash = String::from_str("-");
        assert(dash@ =~= stdin_path());
        ConfigBuilder { in_file: Some(dash), ..self }
    }

    /// Reads from `in_file`.
    pub fn in_file(self, in_file: Option<String>) -> (builder: Self)
        ensures
            builder@ == (Settings { in_file: in_file.deep_view(), ..self@ }),
    {
        ConfigBuilder { in_file, ..self }
    }

    /// Writes to `out_file`.
    pub fn out_file(self, out_file: Option<String>) -> (builder: Self)
        ensures
            builder@ == (Settings { out_file: out_file.deep_view(), ..self@ }),
    {
        ConfigBuilder { out_file, ..self }
    }

    /// Shows the number of lines of each run, or not.
    pub fn count(self, count: bool) -> (builder: Self)
        ensures
            builder@ == (Settings { count, ..self@ }),
    {
        ConfigBuilder { count, ..self }
    }

    /// Shows the causes of an error, or not.
    pub fn debug(self, debug: bool) -> (builder: Self)
        ensures
            builder@ == (Settings { debug, ..self@ }),
    {
        ConfigBuilder { debug, ..self }
    }

    /// The settings that were built.
    pub fn build(self) -> (config: Config)
        ensures
            config@ == self@,
    {
        Config {
            in_file: self.in_file,
            out_file: self.out_file,
            count: self.count,
            debug: self.debug,
        }
    }
}

impl Default for ConfigBuilder {
    fn default() -> (builder: Self)
        ensures
            builder@ == default_settings(),
    {
        ConfigBuilder { in_file: None, out_file: None, count: false, debug: false }
    }
}

/// The command line could not be parsed.
#[derive(Debug)]
pub struct GetArgsError;

} // verus!
