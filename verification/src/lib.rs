//! Ranked search over file names and file contents.
//!
//! The library decides which entries of a directory tree are visible, scores
//! their names and their text against the patterns of a request, combines both
//! scores by the kind of request, and ranks what matched. Walking the tree and
//! reading files is left to the caller, who hands over plain values.

pub mod cancel;
pub mod cli;
pub mod config;
pub mod content;
pub mod evaluate;
pub mod filter;
pub mod model;
pub mod rank;
pub mod scoring;
pub mod search;
pub mod text;
pub mod util;
pub mod walk;

pub use cli::{Cli, MatchMode};
pub use config::{Config, DefaultSearchOptions, OutputOptions};
pub use content::search_file_content;
pub use model::{ContentMatch, Entry, SearchResult, SearchType};
pub use scoring::get_best_match_score;
pub use search::{search_files, search_files_parallel};
pub use util::{format_size, format_time_ago, get_file_icon};
