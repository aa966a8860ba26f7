//! Evaluating one entry against a request.

use crate::cli::MatchMode;
use crate::config::Config;
use crate::content::{content_matches, search_file_content};
use crate::model::{
    match_views, ContentMatch, ContentMatchView, Entry, SearchResult, SearchResultView, SearchType,
};
use crate::scoring::{best_match_score, get_best_match_score, is_substring_match};
use vstd::prelude::*;

verus! {

/// What is added to the score of a hybrid search where the content matched.
pub const CONTENT_BONUS: i64 = 50;

/// The score of a content search where the content matched.
pub const CONTENT_SCORE: i64 = 100;

/// What a search looks for and how.
#[derive(Debug, Clone)]
pub struct SearchRequest {
    /// The pattern for file names, if any.
    pub filename_pattern: Option<String>,
    /// The pattern for the text of files, if any.
    pub content_pattern: Option<String>,
    /// Whether hidden entries are looked at.
    pub include_hidden: bool,
    /// Only directories are results.
    pub dirs_only: bool,
    /// Only entries that are not directories are results.
    pub files_only: bool,
    /// The largest number of results.
    pub limit: usize,
    /// Whether results carry size and time of change.
    pub show_details: bool,
    pub match_mode: MatchMode,
}

/// A [`SearchRequest`] as plain values.
pub struct RequestView {
    pub filename_pattern: Option<Seq<char>>,
    pub content_pattern: Option<Seq<char>>,
    pub include_hidden: bool,
    pub dirs_only: bool,
    pub files_only: bool,
    pub limit: nat,
    pub show_details: bool,
    pub match_mode: MatchMode,
}

/// The characters of an optional string.
pub open spec fn text_view(text: Option<String>) -> Option<Seq<char>> {
    match text {
        Some(t) => Some(t@),
        None => None,
    }
}

impl View for SearchRequest {
    type V = RequestView;

    open spec fn view(&self) -> RequestView {
        RequestView {
            filename_pattern: text_view(self.filename_pattern),
            content_pattern: text_view(self.content_pattern),
            include_hidden: self.include_hidden,
            dirs_only: self.dirs_only,
            files_only: self.files_only,
            limit: self.limit as nat,
            show_details: self.show_details,
            match_mode: self.match_mode,
        }
    }
}

/// The kind of search that the supplied patterns make; none where neither is
/// supplied.
pub open spec fn search_type_for(has_filename: bool, has_content: bool) -> Option<SearchType> {
    if has_filename && has_content {
        Some(SearchType::Hybrid)
    } else if has_filename {
        Some(SearchType::FileName)
    } else if has_content {
        Some(SearchType::Content)
    } else {
        None
    }
}

/// Whether an entry is a match, and its score, from the outcome of the name
/// match and of the content scan.
pub open spec fn combined_outcome(
    search_type: SearchType,
    filename_score: Option<i64>,
    has_content: bool,
) -> (bool, int) {
    let name_part: int = match filename_score {
        Some(score) => score as int,
        None => 0,
    };
    match search_type {
        SearchType::FileName => (filename_score is Some, name_part),
        SearchType::Content => (
            has_content,
            if has_content {
                CONTENT_SCORE as int
            } else {
                0
            },
        ),
        SearchType::Hybrid => (
            filename_score is Some || has_content,
            name_part + if has_content {
                CONTENT_BONUS as int
            } else {
                0
            },
        ),
    }
}

/// The characters of an optional string slice.
pub open spec fn pattern_view(pattern: Option<&str>) -> Option<Seq<char>> {
    match pattern {
        Some(p) => Some(p@),
        None => None,
    }
}

/// The request that the given values make.
pub open spec fn request_view(
    filename_pattern: Option<&str>,
    content_pattern: Option<&str>,
    include_hidden: bool,
    dirs_only: bool,
    files_only: bool,
    limit: usize,
    show_details: bool,
    match_mode: MatchMode,
) -> RequestView {
    RequestView {
        filename_pattern: pattern_view(filename_pattern),
        content_pattern: pattern_view(content_pattern),
        include_hidden,
        dirs_only,
        files_only,
        limit: limit as nat,
        show_details,
        match_mode,
    }
}

impl SearchRequest {
    /// A request from its parts.
    pub fn new(
        filename_pattern: Option<&str>,
        content_pattern: Option<&str>,
        include_hidden: bool,
        dirs_only: bool,
        files_only: bool,
        limit: usize,
        show_details: bool,
        match_mode: MatchMode,
    ) -> (r: Self)
        ensures
            r@ == request_view(
                filename_pattern,
                content_pattern,
                include_hidden,
                dirs_only,
                files_only,
                limit,
                show_details,
                match_mode,
            ),
    {
        SearchRequest {
            filename_pattern: match filename_pattern {
                Some(p) => Some(p.to_owned()),
                None => None,
            },
            content_pattern: match content_pattern {
                Some(p) => Some(p.to_owned()),
                None => None,
            },
            include_hidden,
            dirs_only,
            files_only,
            limit,
            show_details,
            match_mode,
        }
    }
}

/// The kind of search that the supplied patterns make.
pub fn derive_search_type(filename_pattern: Option<&str>, content_pattern: Option<&str>) -> (r:
    Option<SearchType>)
    ensures
        r == search_type_for(filename_pattern is Some, content_pattern is Some),
{
    match (filename_pattern, content_pattern) {
        (Some(_), Some(_)) => Some(SearchType::Hybrid),
        (Some(_), None) => Some(SearchType::FileName),
        (None, Some(_)) => Some(SearchType::Content),
        (None, None) => None,
    }
}

/// Combines the outcome of the name match and of the content scan into the
/// verdict on an entry and its score.
pub fn aggregate(search_type: SearchType, filename_score: Option<i64>, has_content: bool) -> (r: (
    bool,
    i64,
))
    requires
        filename_score matches Some(score) ==> score + CONTENT_BONUS <= i64::MAX,
    ensures
        r.0 == combined_outcome(search_type, filename_score, has_content).0,
        r.1 == combined_outcome(search_type, filename_score, has_content).1,
{
    let name_part: i64 = match filename_score {
        Some(score) => score,
        None => 0,
    };
    match search_type {
        SearchType::FileName => (filename_score.is_some(), name_part),
        SearchType::Content => (
            has_content,
            if has_content {
                CONTENT_SCORE
            } else {
                0
            },
        ),
        SearchType::Hybrid => (
            filename_score.is_some() || has_content,
            name_part + if has_content {
                CONTENT_BONUS
            } else {
                0
            },
        ),
    }
}

impl RequestView {
    /// The kind of search that this request makes.
    pub open spec fn search_type(&self) -> Option<SearchType> {
        search_type_for(self.filename_pattern is Some, self.content_pattern is Some)
    }
}

/// The entry is of a kind that the request asks for.
pub open spec fn passes_kind_filter(entry: Entry, request: RequestView) -> bool {
    &&& !(request.dirs_only && !entry.is_dir)
    &&& !(request.files_only && entry.is_dir)
}

/// The text of the entry is scanned: a content pattern is supplied, and the
/// entry is of a kind asked for, no directory, and has a name that the
/// settings list as searchable.
pub open spec fn scans_content(entry: Entry, request: RequestView, config: Config) -> bool {
    &&& request.content_pattern is Some
    &&& passes_kind_filter(entry, request)
    &&& !entry.is_dir
    &&& entry.file_name matches Some(name) && config.searches_content_of(name@)
}

/// The content matches of an entry: those of its lines where its text is
/// scanned and could be read, none otherwise.
pub open spec fn content_found(entry: Entry, request: RequestView, config: Config) -> Seq<
    ContentMatchView,
> {
    if scans_content(entry, request, config) && entry.lines is Some {
        content_matches(
            entry.lines->0.deep_view(),
            request.content_pattern->0,
            request.match_mode,
        )
    } else {
        Seq::empty()
    }
}

/// The score of the name of an entry, where a file name pattern is supplied
/// and the name matches it.
pub open spec fn name_score_of(entry: Entry, request: RequestView) -> Option<i64> {
    match (entry.file_name, request.filename_pattern) {
        (Some(name), Some(pattern)) => best_match_score(name@, pattern, request.match_mode),
        _ => None,
    }
}

/// The result that an entry gives, `None` where it is no match.
pub open spec fn evaluation_of(entry: Entry, request: RequestView, config: Config) -> Option<
    SearchResultView,
> {
    if !passes_kind_filter(entry, request) || entry.file_name is None {
        None
    } else {
        match request.search_type() {
            None => None,
            Some(search_type) => {
                let found = content_found(entry, request, config);
                let outcome = combined_outcome(
                    search_type,
                    name_score_of(entry, request),
                    found.len() > 0,
                );
                if outcome.0 {
                    Some(
                        SearchResultView {
                            path: entry.path@,
                            score: outcome.1,
                            is_dir: entry.is_dir,
                            size: if request.show_details {
                                entry.file_size
                            } else {
                                None
                            },
                            modified: if request.show_details {
                                entry.modified
                            } else {
                                None
                            },
                            content_matches: found,
                            search_type,
                        },
                    )
                } else {
                    None
                }
            },
        }
    }
}

/// Whether the text of the entry is scanned under this request, so that its
/// lines are worth reading.
pub fn wants_content(entry: &Entry, request: &SearchRequest, config: &Config) -> (r: bool)
    ensures
        r == scans_content(*entry, request@, *config),
{
    if request.content_pattern.is_none() {
        return false;
    }
    if (request.dirs_only && !entry.is_dir) || (request.files_only && entry.is_dir) {
        return false;
    }
    if entry.is_dir {
        return false;
    }
    match &entry.file_name {
        Some(name) => config.is_content_searchable(name.as_str()),
        None => false,
    }
}

/// Evaluates one entry: scores its name, scans its lines, and combines both
/// by the kind of search.
pub fn evaluate_entry(entry: &Entry, request: &SearchRequest, config: &Config) -> (r: Option<
    SearchResult,
>)
    ensures
        match r {
            Some(result) => evaluation_of(*entry, request@, *config) == Some(result@),
            None => evaluation_of(*entry, request@, *config) is None,
        },
{
    if (request.dirs_only && !entry.is_dir) || (request.files_only && entry.is_dir) {
        return None;
    }
    let name = match &entry.file_name {
        Some(name) => name,
        None => {
            return None;
        },
    };
    let search_type = match (&request.filename_pattern, &request.content_pattern) {
        (Some(_), Some(_)) => SearchType::Hybrid,
        (Some(_), None) => SearchType::FileName,
        (None, Some(_)) => SearchType::Content,
        (None, None) => {
            return None;
        },
    };
    let filename_score = match &request.filename_pattern {
        Some(pattern) => get_best_match_score(name.as_str(), pattern.as_str(), &request.match_mode),
        None => None,
    };
    let mut found: Vec<ContentMatch> = Vec::new();
    if wants_content(entry, request, config) {
        match (&entry.lines, &request.content_pattern) {
            (Some(lines), Some(pattern)) => {
                found = search_file_content(lines, pattern.as_str(), &request.match_mode);
            },
            _ => {},
        }
    }
    assert(match_views(found@) == content_found(*entry, request@, *config));
    let (is_match, score) = aggregate(search_type, filename_score, found.len() > 0);
    if !is_match {
        return None;
    }
    let (size, modified) = if request.show_details {
        (entry.file_size, entry.modified)
    } else {
        (None, None)
    };
    Some(
        SearchResult {
            path: entry.path.clone(),
            score,
            is_dir: entry.is_dir,
            size,
            modified,
            content_matches: found,
            search_type,
        },
    )
}

/// In a file name search in exact mode, the lowercase name of every result
/// contains the lowercase pattern, and the result scores 100.
pub proof fn lemma_exact_name_results_contain_pattern(
    entry: Entry,
    request: RequestView,
    config: Config,
)
    requires
        request.search_type() == Some(SearchType::FileName),
        request.match_mode == MatchMode::Exact,
        evaluation_of(entry, request, config) is Some,
    ensures
        entry.file_name is Some,
        is_substring_match(entry.file_name->0@, request.filename_pattern->0),
        evaluation_of(entry, request, config)->0.score == 100,
{
}

/// Content matches come only from entries whose name the settings list as
/// searchable, whatever the text of other entries holds.
pub proof fn lemma_content_only_from_searchable(
    entry: Entry,
    request: RequestView,
    config: Config,
)
    requires
        evaluation_of(entry, request, config) matches Some(result)
            && result.content_matches.len() > 0,
    ensures
        entry.file_name is Some,
        !entry.is_dir,
        config.searches_content_of(entry.file_name->0@),
{
}

} // verus!
