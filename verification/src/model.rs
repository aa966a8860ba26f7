//! The records a search produces.

use vstd::prelude::*;

verus! {

/// Which patterns a request supplied.
#[derive(Clone, Copy, Debug, PartialEq, Eq, Structural)]
pub enum SearchType {
    /// A file name pattern only.
    FileName,
    /// A content pattern only.
    Content,
    /// Both a file name pattern and a content pattern.
    Hybrid,
}

/// One occurrence of the content pattern in a line of a file.
#[derive(Debug, Clone)]
pub struct ContentMatch {
    /// The number of the line, counted from 1.
    pub line_number: usize,
    /// The whole line as it was read.
    pub line_content: String,
    /// The byte offset in the lowercase line at which the occurrence begins.
    pub match_start: usize,
    /// The byte offset in the lowercase line at which the occurrence ends.
    pub match_end: usize,
}

/// A [`ContentMatch`] as plain values.
pub struct ContentMatchView {
    pub line_number: nat,
    pub line_content: Seq<char>,
    pub match_start: nat,
    pub match_end: nat,
}

impl View for ContentMatch {
    type V = ContentMatchView;

    open spec fn view(&self) -> ContentMatchView {
        ContentMatchView {
            line_number: self.line_number as nat,
            line_content: self.line_content@,
            match_start: self.match_start as nat,
            match_end: self.match_end as nat,
        }
    }
}

/// The plain values of a list of matches.
pub open spec fn match_views(matches: Seq<ContentMatch>) -> Seq<ContentMatchView> {
    matches.map_values(|m: ContentMatch| m@)
}

/// One entry of a directory tree as the walk reports it, with what the search
/// reads of it.
#[derive(Debug, Clone)]
pub struct Entry {
    /// The path of the entry.
    pub path: String,
    /// The name under which the walk reports the entry, where it is valid
    /// text: the last component of its path or, for a root without one, the
    /// root as it was given.
    pub walk_name: Option<String>,
    /// The last component of the path, where there is one and it is valid text.
    pub file_name: Option<String>,
    /// The number of directories between the root of the walk and the entry;
    /// the root itself has depth 0.
    pub depth: usize,
    /// Whether the path names a directory.
    pub is_dir: bool,
    /// The size in bytes, where the entry is a regular file whose metadata
    /// could be read.
    pub file_size: Option<u64>,
    /// The time of the last change in seconds since the Unix epoch, where it
    /// could be read.
    pub modified: Option<u64>,
    /// The lines of the file, where it was read and held valid text.
    pub lines: Option<Vec<String>>,
}

/// One matching entry with its score.
#[derive(Debug, Clone)]
pub struct SearchResult {
    pub path: String,
    pub score: i64,
    pub is_dir: bool,
    pub size: Option<u64>,
    pub modified: Option<u64>,
    pub content_matches: Vec<ContentMatch>,
    pub search_type: SearchType,
}

/// A [`SearchResult`] as plain values.
pub struct SearchResultView {
    pub path: Seq<char>,
    pub score: int,
    pub is_dir: bool,
    pub size: Option<u64>,
    pub modified: Option<u64>,
    pub content_matches: Seq<ContentMatchView>,
    pub search_type: SearchType,
}

impl View for SearchResult {
    type V = SearchResultView;

    open spec fn view(&self) -> SearchResultView {
        SearchResultView {
            path: self.path@,
            score: self.score as int,
            is_dir: self.is_dir,
            size: self.size,
            modified: self.modified,
            content_matches: match_views(self.content_matches@),
            search_type: self.search_type,
        }
    }
}

/// The plain values of a list of results.
pub open spec fn result_views(results: Seq<SearchResult>) -> Seq<SearchResultView> {
    results.map_values(|r: SearchResult| r@)
}

} // verus!
