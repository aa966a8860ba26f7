//! The request as the command line states it.

use crate::config::{thread_count_for, Config};
use crate::text::{is_blank, trim_of};
use vstd::prelude::*;

verus! {

/// How a pattern is compared with a name or a line.
#[derive(Clone, Copy, Debug, PartialEq, Eq, Structural)]
pub enum MatchMode {
    /// Subsequence, substring and prefix matches all count.
    Fuzzy,
    /// Only case-insensitive substring matches count.
    Exact,
}

/// The arguments of the command line.
#[derive(Debug, Clone)]
pub struct Cli {
    /// The pattern for the names of files and directories.
    pub pattern: Option<String>,
    /// The pattern for the text of files.
    pub content: Option<String>,
    /// The directory to search in; the current directory where none is given.
    pub path: Option<String>,
    /// Include hidden files and directories.
    pub hidden: bool,
    /// Only match files.
    pub files_only: bool,
    /// Only match directories.
    pub dirs_only: bool,
    pub match_mode: MatchMode,
    /// The largest number of results to show.
    pub limit: usize,
    /// Copy the selected path to the clipboard.
    pub copy: bool,
    /// Show sizes and dates.
    pub details: bool,
    /// Open a new terminal window at the selected path.
    pub terminal: bool,
    /// Search in parallel.
    pub parallel: bool,
    /// The number of threads to use.
    pub threads: Option<usize>,
    /// Use twice as many threads as there are cores.
    pub max_cpu: bool,
}

/// What to do with the arguments of the command line.
#[derive(Clone, Copy, Debug, PartialEq, Eq, Structural)]
pub enum SearchPlan {
    /// No pattern is given: show how the program is used.
    ShowHelp,
    /// The file name pattern holds nothing but whitespace.
    EmptyFilenamePattern,
    /// Only a content pattern is given, and it holds nothing but whitespace.
    EmptyContentPattern,
    /// Search.
    Run,
}

/// The settings of a search once command line and stored settings are put
/// together: the command line can switch hidden entries and details on, and
/// its thread count comes first.
#[derive(Clone, Copy, Debug)]
pub struct SearchSetup {
    pub include_hidden: bool,
    pub show_details: bool,
    pub parallel: bool,
    pub threads: usize,
}

/// The characters of an optional string.
pub open spec fn argument_view(argument: Option<String>) -> Option<Seq<char>> {
    match argument {
        Some(a) => Some(a@),
        None => None,
    }
}

/// What the given patterns call for.
pub open spec fn plan_for(pattern: Option<Seq<char>>, content: Option<Seq<char>>) -> SearchPlan {
    match (pattern, content) {
        (Some(p), _) => if trim_of(p).len() == 0 {
            SearchPlan::EmptyFilenamePattern
        } else {
            SearchPlan::Run
        },
        (None, Some(c)) => if trim_of(c).len() == 0 {
            SearchPlan::EmptyContentPattern
        } else {
            SearchPlan::Run
        },
        (None, None) => SearchPlan::ShowHelp,
    }
}

impl Cli {
    /// Decides what the arguments call for.
    pub fn plan(&self) -> (r: SearchPlan)
        ensures
            r == plan_for(argument_view(self.pattern), argument_view(self.content)),
    {
        match (&self.pattern, &self.content) {
            (Some(p), _) => if is_blank(p.as_str()) {
                SearchPlan::EmptyFilenamePattern
            } else {
                SearchPlan::Run
            },
            (None, Some(c)) => if is_blank(c.as_str()) {
                SearchPlan::EmptyContentPattern
            } else {
                SearchPlan::Run
            },
            (None, None) => SearchPlan::ShowHelp,
        }
    }

    /// Puts the command line and the stored settings together.
    pub fn setup(&self, config: &Config) -> (r: SearchSetup)
        ensures
            r.include_hidden == (self.hidden || config.include_hidden),
            r.show_details == (self.details || config.output_options.show_details),
            r.parallel == self.parallel,
            exists|cores: usize|
                cores >= 1 && r.threads == #[trigger] thread_count_for(
                    self.threads,
                    config.max_parallel_threads,
                    self.max_cpu,
                    cores,
                ),
    {
        SearchSetup {
            include_hidden: self.hidden || config.include_hidden,
            show_details: self.details || config.output_options.show_details,
            parallel: self.parallel,
            threads: config.get_effective_thread_count(self.threads, self.max_cpu),
        }
    }
}

} // verus!
