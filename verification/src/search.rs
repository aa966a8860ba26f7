//! Searching the entries of a walk.
//!
//! An entry that the filter does not admit is left out together with
//! everything below it. Every other entry is evaluated, and the matches are
//! ranked.

use crate::cancel::is_cancelled;
use crate::cli::MatchMode;
use crate::config::Config;
use crate::evaluate::{
    content_found, evaluate_entry, evaluation_of, name_score_of, request_view, RequestView,
    SearchRequest,
};
use crate::filter::{is_hidden_name, should_visit};
use crate::model::{result_views, Entry, SearchResult, SearchResultView, SearchType};
use crate::rank::{lemma_ranked_results, rank_results, ranked_results};
use crate::scoring::{fuzzy_signal, is_substring_match};
use crate::walk::{
    admits, has_excluded_ancestor, is_ancestor, is_visible, lemma_visible_iff_not_pruned,
    pruned_depth,
};
use std::sync::atomic::AtomicBool;
use vstd::prelude::*;

verus! {

/// The result that entry `k` contributes, if any.
pub open spec fn found_at(entries: Seq<Entry>, k: int, request: RequestView, config: Config) -> Option<
    SearchResultView,
> {
    if is_visible(entries, k, request, config) {
        evaluation_of(entries[k], request, config)
    } else {
        None
    }
}

/// The results of the first `n` entries, in the order of the walk.
pub open spec fn collected(entries: Seq<Entry>, n: int, request: RequestView, config: Config) -> Seq<
    SearchResultView,
>
    decreases n,
{
    if n <= 0 {
        Seq::empty()
    } else {
        let earlier = collected(entries, n - 1, request, config);
        match found_at(entries, n - 1, request, config) {
            Some(result) => earlier.push(result),
            None => earlier,
        }
    }
}

/// The number of visible entries among the first `n` that are directories
/// (`dirs`) or that are not.
pub open spec fn scanned_count(
    entries: Seq<Entry>,
    n: int,
    dirs: bool,
    request: RequestView,
    config: Config,
) -> nat
    decreases n,
{
    if n <= 0 {
        0
    } else {
        let earlier = scanned_count(entries, n - 1, dirs, request, config);
        if is_visible(entries, n - 1, request, config) && entries[n - 1].is_dir == dirs {
            earlier + 1
        } else {
            earlier
        }
    }
}

/// A count as far as the machine's word holds it.
pub open spec fn held_count(count: nat) -> usize {
    if count <= usize::MAX {
        count as usize
    } else {
        usize::MAX
    }
}

/// What the first `n` entries contribute depends on those entries alone.
pub proof fn lemma_prefix_decides(
    a: Seq<Entry>,
    b: Seq<Entry>,
    n: int,
    request: RequestView,
    config: Config,
)
    requires
        0 <= n <= a.len(),
        n <= b.len(),
        forall|i: int| 0 <= i < n ==> a[i] == b[i],
    ensures
        pruned_depth(a, n, request, config) == pruned_depth(b, n, request, config),
        collected(a, n, request, config) == collected(b, n, request, config),
        scanned_count(a, n, true, request, config) == scanned_count(b, n, true, request, config),
        scanned_count(a, n, false, request, config) == scanned_count(b, n, false, request, config),
        forall|k: int|
            0 <= k < n ==> is_visible(a, k, request, config) == is_visible(b, k, request, config),
    decreases n,
{
    if n > 0 {
        lemma_prefix_decides(a, b, n - 1, request, config);
        lemma_visible_iff_not_pruned(a, n - 1, request, config);
        lemma_visible_iff_not_pruned(b, n - 1, request, config);
    }
}

/// What became of an entry that was offered to a search.
#[derive(Clone, Copy, Debug, PartialEq, Eq, Structural)]
pub enum Visit {
    /// The search is cancelled; the entry was not looked at.
    Stopped,
    /// The entry lies below an entry that was left out.
    Skipped,
    /// The filter does not admit the entry: nothing below it is wanted.
    Pruned,
    /// The entry was evaluated and is no match.
    NoMatch,
    /// The entry was evaluated and is a match.
    Match,
}

/// What becomes of entry `k` of a walk.
pub open spec fn visit_of(entries: Seq<Entry>, k: int, request: RequestView, config: Config) -> Visit {
    if has_excluded_ancestor(entries, k, request, config) {
        Visit::Skipped
    } else if !admits(entries[k], request, config) {
        Visit::Pruned
    } else if evaluation_of(entries[k], request, config) is Some {
        Visit::Match
    } else {
        Visit::NoMatch
    }
}

/// A search in progress: it is offered the entries of a walk one by one and
/// collects the matches.
pub struct SearchRun<'a> {
    request: &'a SearchRequest,
    config: &'a Config,
    results: Vec<SearchResult>,
    files_scanned: usize,
    dirs_scanned: usize,
    pruned_below: Option<usize>,
    stopped: bool,
    seen: Ghost<Seq<Entry>>,
}

impl<'a> SearchRun<'a> {
    /// The entries that the search has looked at, in order.
    pub closed spec fn seen(&self) -> Seq<Entry> {
        self.seen@
    }

    /// The request that the search serves.
    pub closed spec fn request(&self) -> RequestView {
        self.request@
    }

    /// The settings that the search runs under.
    pub closed spec fn config(&self) -> Config {
        *self.config
    }

    /// Whether the search was cancelled.
    pub closed spec fn stopped(&self) -> bool {
        self.stopped
    }

    /// The matches collected so far, in the order of the walk.
    pub closed spec fn matches(&self) -> Seq<SearchResultView> {
        result_views(self.results@)
    }

    /// The search holds exactly what the entries seen so far contribute.
    pub closed spec fn wf(&self) -> bool {
        &&& result_views(self.results@) == collected(
            self.seen@,
            self.seen@.len() as int,
            self.request@,
            *self.config,
        )
        &&& self.pruned_below == pruned_depth(
            self.seen@,
            self.seen@.len() as int,
            self.request@,
            *self.config,
        )
        &&& self.files_scanned == held_count(
            scanned_count(self.seen@, self.seen@.len() as int, false, self.request@, *self.config),
        )
        &&& self.dirs_scanned == held_count(
            scanned_count(self.seen@, self.seen@.len() as int, true, self.request@, *self.config),
        )
    }

    /// What a well-formed search has collected.
    pub proof fn lemma_matches(&self)
        requires
            self.wf(),
        ensures
            self.matches() == collected(
                self.seen(),
                self.seen().len() as int,
                self.request(),
                self.config(),
            ),
    {
    }

    /// Begins a search that has seen nothing yet.
    pub fn new(request: &'a SearchRequest, config: &'a Config) -> (run: Self)
        ensures
            run.wf(),
            run.seen() == Seq::<Entry>::empty(),
            run.request() == request@,
            run.config() == *config,
            !run.stopped(),
    {
        let results: Vec<SearchResult> = Vec::new();
        assert(result_views(results@) =~= Seq::<SearchResultView>::empty());
        SearchRun {
            request,
            config,
            results,
            files_scanned: 0,
            dirs_scanned: 0,
            pruned_below: None,
            stopped: false,
            seen: Ghost(Seq::empty()),
        }
    }

    /// Whether the search was cancelled.
    pub fn is_stopped(&self) -> (r: bool)
        ensures
            r == self.stopped(),
    {
        self.stopped
    }

    /// The number of visible entries seen so far that are no directories, as
    /// far as the machine's word counts.
    pub fn files_scanned(&self) -> (r: usize)
        requires
            self.wf(),
        ensures
            r == held_count(
                scanned_count(
                    self.seen(),
                    self.seen().len() as int,
                    false,
                    self.request(),
                    self.config(),
                ),
            ),
    {
        self.files_scanned
    }

    /// The number of visible directories seen so far, as far as the machine's
    /// word counts.
    pub fn dirs_scanned(&self) -> (r: usize)
        requires
            self.wf(),
        ensures
            r == held_count(
                scanned_count(
                    self.seen(),
                    self.seen().len() as int,
                    true,
                    self.request(),
                    self.config(),
                ),
            ),
    {
        self.dirs_scanned
    }

    /// The number of matches collected so far.
    pub fn match_count(&self) -> (r: usize)
        ensures
            r == self.matches().len(),
    {
        self.results.len()
    }

    /// Offers the next entry of the walk. `cancelled` says whether
    /// cancellation was observed before the entry: a cancelled search looks at
    /// nothing more. Otherwise the entry is left out if it lies below an entry
    /// that was left out or if the filter does not admit it, and is evaluated
    /// if not.
    pub fn step(&mut self, entry: &Entry, cancelled: bool) -> (visit: Visit)
        requires
            old(self).wf(),
        ensures
            final(self).wf(),
            final(self).request() == old(self).request(),
            final(self).config() == old(self).config(),
            cancelled || old(self).stopped() ==> {
                &&& visit == Visit::Stopped
                &&& final(self).stopped()
                &&& final(self).seen() == old(self).seen()
            },
            !cancelled && !old(self).stopped() ==> {
                &&& !final(self).stopped()
                &&& final(self).seen() == old(self).seen().push(*entry)
                &&& visit == visit_of(
                    final(self).seen(),
                    old(self).seen().len() as int,
                    old(self).request(),
                    old(self).config(),
                )
            },
    {
        if cancelled || self.stopped {
            self.stopped = true;
            return Visit::Stopped;
        }
        let ghost before = self.seen@;
        let ghost after = before.push(*entry);
        let ghost k = before.len() as int;
        proof {
            lemma_prefix_decides(before, after, k, self.request@, *self.config);
            lemma_visible_iff_not_pruned(after, k, self.request@, *self.config);
        }
        let below = match self.pruned_below {
            Some(depth) => entry.depth > depth,
            None => false,
        };
        self.seen = Ghost(after);
        if below {
            return Visit::Skipped;
        }
        let walk_name = match &entry.walk_name {
            Some(name) => Some(name.as_str()),
            None => None,
        };
        if !should_visit(walk_name, entry.file_size, false, self.request.include_hidden, self.config) {
            self.pruned_below = Some(entry.depth);
            return Visit::Pruned;
        }
        self.pruned_below = None;
        if entry.is_dir {
            if self.dirs_scanned < usize::MAX {
                self.dirs_scanned += 1;
            }
        } else {
            if self.files_scanned < usize::MAX {
                self.files_scanned += 1;
            }
        }
        match evaluate_entry(entry, self.request, self.config) {
            Some(result) => {
                let ghost earlier = self.results@;
                self.results.push(result);
                assert(result_views(self.results@) =~= result_views(earlier).push(result@));
                Visit::Match
            },
            None => Visit::NoMatch,
        }
    }

    /// Ends the search: the matches ranked by score, no more of them than the
    /// request allows.
    pub fn finish(self) -> (r: Vec<SearchResult>)
        requires
            self.wf(),
        ensures
            result_views(r@) == ranked_results(
                collected(self.seen(), self.seen().len() as int, self.request(), self.config()),
                self.request().limit,
            ),
            r@.len() <= self.request().limit,
    {
        rank_results(self.results, self.request.limit)
    }
}

/// Searches the entries of a walk one after the other. Before each entry
/// the cancellation token is read: once cancellation is observed, no further
/// entry is looked at. Whether or not the search was cancelled, the matches
/// found are ranked by score and cut to `limit`.
pub fn search_files(
    entries: &Vec<Entry>,
    filename_pattern: Option<&str>,
    content_pattern: Option<&str>,
    include_hidden: bool,
    dirs_only: bool,
    files_only: bool,
    limit: usize,
    show_details: bool,
    match_mode: &MatchMode,
    config: &Config,
    cancel: &AtomicBool,
) -> (r: Vec<SearchResult>)
    ensures
        r@.len() <= limit,
        exists|n: int|
            0 <= n <= entries@.len() && result_views(r@) == #[trigger] sequential_results(
                entries@,
                n,
                request_view(
                    filename_pattern,
                    content_pattern,
                    include_hidden,
                    dirs_only,
                    files_only,
                    limit,
                    show_details,
                    *match_mode,
                ),
                *config,
            ),
        forall|i: int|
            0 <= i < r@.len() ==> has_origin(
                #[trigger] result_views(r@)[i],
                entries@,
                entries@.len() as int,
                request_view(
                    filename_pattern,
                    content_pattern,
                    include_hidden,
                    dirs_only,
                    files_only,
                    limit,
                    show_details,
                    *match_mode,
                ),
                *config,
            ),
{
    let request = SearchRequest::new(
        filename_pattern,
        content_pattern,
        include_hidden,
        dirs_only,
        files_only,
        limit,
        show_details,
        *match_mode,
    );
    let mut run = SearchRun::new(&request, config);
    let total = entries.len();
    let mut k: usize = 0;
    while k < total
        invariant
            total == entries@.len(),
            k <= total,
            run.wf(),
            run.seen() == entries@.take(k as int),
            run.request() == request@,
            run.config() == *config,
            !run.stopped(),
        decreases total - k,
    {
        if is_cancelled(cancel) {
            break ;
        }
        run.step(&entries[k], false);
        k += 1;
    }
    proof {
        lemma_prefix_decides(entries@.take(k as int), entries@, k as int, request@, *config);
    }
    let ranked = run.finish();
    proof {
        assert(result_views(ranked@) == sequential_results(entries@, k as int, request@, *config));
        lemma_sequential_results_origin(entries@, k as int, request@, *config);
        assert forall|i: int| 0 <= i < ranked@.len() implies has_origin(
            #[trigger] result_views(ranked@)[i],
            entries@,
            entries@.len() as int,
            request@,
            *config,
        ) by {
            assert(has_origin(result_views(ranked@)[i], entries@, k as int, request@, *config));
        }
    }
    ranked
}

/// What a sequential search returns where it looked at the first `n` entries.
pub open spec fn sequential_results(
    entries: Seq<Entry>,
    n: int,
    request: RequestView,
    config: Config,
) -> Seq<SearchResultView> {
    ranked_results(collected(entries, n, request, config), request.limit)
}

/// The candidates of a parallel search among the first `n` entries: the
/// visible ones in the order of the walk, no more than `cap` of them.
pub open spec fn candidates_of(
    entries: Seq<Entry>,
    n: int,
    cap: nat,
    request: RequestView,
    config: Config,
) -> Seq<Entry>
    decreases n,
{
    if n <= 0 {
        Seq::empty()
    } else {
        let earlier = candidates_of(entries, n - 1, cap, request, config);
        if earlier.len() < cap && is_visible(entries, n - 1, request, config) {
            earlier.push(entries[n - 1])
        } else {
            earlier
        }
    }
}

/// The results of the first `n` candidates, where `done` says which of them
/// were evaluated before cancellation was observed.
pub open spec fn evaluated(
    candidates: Seq<Entry>,
    done: Seq<bool>,
    n: int,
    request: RequestView,
    config: Config,
) -> Seq<SearchResultView>
    decreases n,
{
    if n <= 0 {
        Seq::empty()
    } else {
        let earlier = evaluated(candidates, done, n - 1, request, config);
        if done[n - 1] {
            match evaluation_of(candidates[n - 1], request, config) {
                Some(result) => earlier.push(result),
                None => earlier,
            }
        } else {
            earlier
        }
    }
}

/// What a parallel search returns where `done` says which candidates were
/// evaluated.
pub open spec fn parallel_results(
    entries: Seq<Entry>,
    done: Seq<bool>,
    request: RequestView,
    config: Config,
) -> Seq<SearchResultView> {
    let candidates = candidates_of(
        entries,
        entries.len() as int,
        config.max_files_per_search as nat,
        request,
        config,
    );
    ranked_results(
        evaluated(candidates, done, candidates.len() as int, request, config),
        request.limit,
    )
}

/// The entries behind a list of references.
pub open spec fn entries_of(candidates: Seq<&Entry>) -> Seq<Entry> {
    candidates.map_values(|e: &Entry| *e)
}

/// What the first `n` candidates contribute depends on them and on what is
/// known of them alone.
pub proof fn lemma_evaluated_prefix(
    a: Seq<Entry>,
    done_a: Seq<bool>,
    b: Seq<Entry>,
    done_b: Seq<bool>,
    n: int,
    request: RequestView,
    config: Config,
)
    requires
        0 <= n <= a.len(),
        n <= b.len(),
        n <= done_a.len(),
        n <= done_b.len(),
        forall|i: int| 0 <= i < n ==> a[i] == b[i] && done_a[i] == done_b[i],
    ensures
        evaluated(a, done_a, n, request, config) == evaluated(b, done_b, n, request, config),
    decreases n,
{
    if n > 0 {
        lemma_evaluated_prefix(a, done_a, b, done_b, n - 1, request, config);
    }
}

/// The first phase of a parallel search: walks the entries, leaves out what
/// the filter does not admit together with what lies below it, and stops once
/// as many candidates are found as the settings allow.
pub fn select_candidates<'a>(
    entries: &'a Vec<Entry>,
    request: &SearchRequest,
    config: &Config,
) -> (r: Vec<&'a Entry>)
    ensures
        entries_of(r@) == candidates_of(
            entries@,
            entries@.len() as int,
            config.max_files_per_search as nat,
            request@,
            *config,
        ),
        r@.len() <= config.max_files_per_search,
{
    let cap = config.max_files_per_search;
    let total = entries.len();
    let mut chosen: Vec<&Entry> = Vec::new();
    let mut pruned_below: Option<usize> = None;
    let mut k: usize = 0;
    while k < total && chosen.len() < cap
        invariant
            total == entries@.len(),
            cap == config.max_files_per_search,
            k <= total,
            chosen@.len() <= cap,
            pruned_below == pruned_depth(entries@, k as int, request@, *config),
            entries_of(chosen@) == candidates_of(entries@, k as int, cap as nat, request@, *config),
        decreases total - k,
    {
        let entry = &entries[k];
        proof {
            lemma_visible_iff_not_pruned(entries@, k as int, request@, *config);
        }
        let below = match pruned_below {
            Some(depth) => entry.depth > depth,
            None => false,
        };
        if !below {
            let walk_name = match &entry.walk_name {
                Some(name) => Some(name.as_str()),
                None => None,
            };
            if should_visit(walk_name, entry.file_size, false, request.include_hidden, config) {
                pruned_below = None;
                chosen.push(entry);
            } else {
                pruned_below = Some(entry.depth);
            }
        }
        k += 1;
    }
    proof {
        lemma_candidates_full(entries@, k as int, entries@.len() as int, cap as nat, request@, *config);
    }
    chosen
}

/// Once the cap is reached, further entries add no candidate.
pub proof fn lemma_candidates_full(
    entries: Seq<Entry>,
    k: int,
    n: int,
    cap: nat,
    request: RequestView,
    config: Config,
)
    requires
        0 <= k <= n,
        k == n || candidates_of(entries, k, cap, request, config).len() >= cap,
    ensures
        candidates_of(entries, n, cap, request, config) == candidates_of(
            entries,
            k,
            cap,
            request,
            config,
        ),
    decreases n - k,
{
    if k < n {
        lemma_candidates_full(entries, k, n - 1, cap, request, config);
    }
}

/// The second phase of a parallel search, for one share of the candidates:
/// evaluates each candidate before which the cancellation token is not found
/// set, and returns the matches in the order of the candidates.
pub fn evaluate_candidates(
    candidates: &[&Entry],
    request: &SearchRequest,
    config: &Config,
    cancel: &AtomicBool,
) -> (r: Vec<SearchResult>)
    ensures
        exists|done: Seq<bool>|
            done.len() == candidates@.len() && result_views(r@) == #[trigger] evaluated(
                entries_of(candidates@),
                done,
                candidates@.len() as int,
                request@,
                *config,
            ),
{
    let total = candidates.len();
    let ghost all = entries_of(candidates@);
    let mut results: Vec<SearchResult> = Vec::new();
    let ghost mut done: Seq<bool> = Seq::empty();
    let mut k: usize = 0;
    while k < total
        invariant
            total == candidates@.len(),
            all == entries_of(candidates@),
            k <= total,
            done.len() == k,
            result_views(results@) == evaluated(all, done, k as int, request@, *config),
        decreases total - k,
    {
        let ghost before = done;
        if is_cancelled(cancel) {
            proof {
                done = done.push(false);
            }
        } else {
            proof {
                done = done.push(true);
            }
            match evaluate_entry(candidates[k], request, config) {
                Some(result) => {
                    results.push(result);
                },
                None => {},
            }
        }
        proof {
            lemma_evaluated_prefix(all, before, all, done, k as int, request@, *config);
        }
        k += 1;
    }
    results
}

/// Results carry details where the call or the settings ask for them.
pub open spec fn wants_details(show_details: bool, config: Config) -> bool {
    show_details || config.output_options.show_details
}

/// Searches the entries of a walk in two phases: the candidates are chosen
/// first, then each is evaluated unless the cancellation token is found set
/// before it. The matches are ranked by score and cut to `limit`. Results
/// carry details where the call or the settings ask for them.
pub fn search_files_parallel(
    entries: &Vec<Entry>,
    filename_pattern: Option<&str>,
    content_pattern: Option<&str>,
    include_hidden: bool,
    dirs_only: bool,
    files_only: bool,
    limit: usize,
    show_details: bool,
    match_mode: &MatchMode,
    config: &Config,
    cancel: &AtomicBool,
) -> (r: Vec<SearchResult>)
    ensures
        r@.len() <= limit,
        exists|done: Seq<bool>|
            done.len() == candidates_of(
                entries@,
                entries@.len() as int,
                config.max_files_per_search as nat,
                request_view(
                    filename_pattern,
                    content_pattern,
                    include_hidden,
                    dirs_only,
                    files_only,
                    limit,
                    wants_details(show_details, *config),
                    *match_mode,
                ),
                *config,
            ).len() && result_views(r@) == #[trigger] parallel_results(
                entries@,
                done,
                request_view(
                    filename_pattern,
                    content_pattern,
                    include_hidden,
                    dirs_only,
                    files_only,
                    limit,
                    wants_details(show_details, *config),
                    *match_mode,
                ),
                *config,
            ),
        forall|i: int|
            0 <= i < r@.len() ==> has_origin(
                #[trigger] result_views(r@)[i],
                entries@,
                entries@.len() as int,
                request_view(
                    filename_pattern,
                    content_pattern,
                    include_hidden,
                    dirs_only,
                    files_only,
                    limit,
                    wants_details(show_details, *config),
                    *match_mode,
                ),
                *config,
            ),
{
    let request = SearchRequest::new(
        filename_pattern,
        content_pattern,
        include_hidden,
        dirs_only,
        files_only,
        limit,
        show_details || config.output_options.show_details,
        *match_mode,
    );
    let candidates = select_candidates(entries, &request, config);
    let found = evaluate_candidates(candidates.as_slice(), &request, config, cancel);
    let ghost done = choose|done: Seq<bool>|
        done.len() == candidates@.len() && result_views(found@) == #[trigger] evaluated(
            entries_of(candidates@),
            done,
            candidates@.len() as int,
            request@,
            *config,
        );
    let ranked = rank_results(found, limit);
    proof {
        assert(result_views(ranked@) == parallel_results(entries@, done, request@, *config));
        lemma_parallel_results_origin(entries@, done, request@, *config);
    }
    ranked
}

/// `result` is what the visible entry `k` of the walk evaluates to.
pub open spec fn comes_from(
    result: SearchResultView,
    entries: Seq<Entry>,
    k: int,
    request: RequestView,
    config: Config,
) -> bool {
    &&& is_visible(entries, k, request, config)
    &&& evaluation_of(entries[k], request, config) == Some(result)
}

/// `result` is what some visible entry among the first `n` evaluates to.
pub open spec fn has_origin(
    result: SearchResultView,
    entries: Seq<Entry>,
    n: int,
    request: RequestView,
    config: Config,
) -> bool {
    exists|k: int| 0 <= k < n && #[trigger] comes_from(result, entries, k, request, config)
}

/// Every collected result is what some visible entry among the first `n`
/// evaluates to.
pub proof fn lemma_collected_origin(
    entries: Seq<Entry>,
    n: int,
    request: RequestView,
    config: Config,
)
    ensures
        forall|i: int|
            #![trigger collected(entries, n, request, config)[i]]
            0 <= i < collected(entries, n, request, config).len() ==> has_origin(
                collected(entries, n, request, config)[i],
                entries,
                n,
                request,
                config,
            ),
    decreases n,
{
    if n > 0 {
        lemma_collected_origin(entries, n - 1, request, config);
        let earlier = collected(entries, n - 1, request, config);
        let all = collected(entries, n, request, config);
        assert forall|i: int| 0 <= i < all.len() implies has_origin(
            #[trigger] all[i],
            entries,
            n,
            request,
            config,
        ) by {
            if i < earlier.len() {
                assert(has_origin(earlier[i], entries, n - 1, request, config));
            } else {
                assert(comes_from(all[i], entries, n - 1, request, config));
            }
        }
    }
}

/// `candidate` is a visible entry among the first `n` of the walk.
pub open spec fn is_visible_entry(
    candidate: Entry,
    entries: Seq<Entry>,
    n: int,
    request: RequestView,
    config: Config,
) -> bool {
    exists|k: int|
        0 <= k < n && #[trigger] is_visible(entries, k, request, config) && entries[k] == candidate
}

/// Every candidate is a visible entry of the walk.
pub proof fn lemma_candidates_origin(
    entries: Seq<Entry>,
    n: int,
    cap: nat,
    request: RequestView,
    config: Config,
)
    requires
        n <= entries.len(),
    ensures
        candidates_of(entries, n, cap, request, config).len() <= cap,
        forall|i: int|
            #![trigger candidates_of(entries, n, cap, request, config)[i]]
            0 <= i < candidates_of(entries, n, cap, request, config).len() ==> is_visible_entry(
                candidates_of(entries, n, cap, request, config)[i],
                entries,
                n,
                request,
                config,
            ),
    decreases n,
{
    if n > 0 {
        lemma_candidates_origin(entries, n - 1, cap, request, config);
        let earlier = candidates_of(entries, n - 1, cap, request, config);
        let all = candidates_of(entries, n, cap, request, config);
        assert forall|i: int| 0 <= i < all.len() implies is_visible_entry(
            #[trigger] all[i],
            entries,
            n,
            request,
            config,
        ) by {
            if i < earlier.len() {
                assert(is_visible_entry(earlier[i], entries, n - 1, request, config));
            }
        }
    }
}

/// `result` is what one of the first `n` candidates evaluates to, and that
/// candidate was evaluated.
pub open spec fn is_evaluation(
    result: SearchResultView,
    candidates: Seq<Entry>,
    done: Seq<bool>,
    n: int,
    request: RequestView,
    config: Config,
) -> bool {
    exists|c: int|
        0 <= c < n && done[c] && #[trigger] evaluation_of(candidates[c], request, config) == Some(
            result,
        )
}

/// Every result of the second phase is what some evaluated candidate
/// evaluates to.
pub proof fn lemma_evaluated_origin(
    candidates: Seq<Entry>,
    done: Seq<bool>,
    n: int,
    request: RequestView,
    config: Config,
)
    requires
        n <= candidates.len(),
        n <= done.len(),
    ensures
        forall|i: int|
            #![trigger evaluated(candidates, done, n, request, config)[i]]
            0 <= i < evaluated(candidates, done, n, request, config).len() ==> is_evaluation(
                evaluated(candidates, done, n, request, config)[i],
                candidates,
                done,
                n,
                request,
                config,
            ),
    decreases n,
{
    if n > 0 {
        lemma_evaluated_origin(candidates, done, n - 1, request, config);
        let earlier = evaluated(candidates, done, n - 1, request, config);
        let all = evaluated(candidates, done, n, request, config);
        assert forall|i: int| 0 <= i < all.len() implies is_evaluation(
            #[trigger] all[i],
            candidates,
            done,
            n,
            request,
            config,
        ) by {
            if i < earlier.len() {
                assert(is_evaluation(earlier[i], candidates, done, n - 1, request, config));
            }
        }
    }
}

/// A sequential search returns no more results than the limit, and each of
/// them is what a visible entry among those looked at evaluates to.
pub proof fn lemma_sequential_results_origin(
    entries: Seq<Entry>,
    n: int,
    request: RequestView,
    config: Config,
)
    ensures
        sequential_results(entries, n, request, config).len() <= request.limit,
        forall|i: int|
            #![trigger sequential_results(entries, n, request, config)[i]]
            0 <= i < sequential_results(entries, n, request, config).len() ==> has_origin(
                sequential_results(entries, n, request, config)[i],
                entries,
                n,
                request,
                config,
            ),
{
    let found = collected(entries, n, request, config);
    let out = sequential_results(entries, n, request, config);
    lemma_collected_origin(entries, n, request, config);
    lemma_ranked_results(found, request.limit);
    assert forall|i: int| 0 <= i < out.len() implies has_origin(
        #[trigger] out[i],
        entries,
        n,
        request,
        config,
    ) by {
        assert(found.contains(out[i]));
    }
}

/// A parallel search returns no more results than the limit, and each of them
/// is what a visible entry of the walk evaluates to.
pub proof fn lemma_parallel_results_origin(
    entries: Seq<Entry>,
    done: Seq<bool>,
    request: RequestView,
    config: Config,
)
    requires
        done.len() == candidates_of(
            entries,
            entries.len() as int,
            config.max_files_per_search as nat,
            request,
            config,
        ).len(),
    ensures
        parallel_results(entries, done, request, config).len() <= request.limit,
        forall|i: int|
            #![trigger parallel_results(entries, done, request, config)[i]]
            0 <= i < parallel_results(entries, done, request, config).len() ==> has_origin(
                parallel_results(entries, done, request, config)[i],
                entries,
                entries.len() as int,
                request,
                config,
            ),
{
    let cap = config.max_files_per_search as nat;
    let n = entries.len() as int;
    let candidates = candidates_of(entries, n, cap, request, config);
    let found = evaluated(candidates, done, candidates.len() as int, request, config);
    let out = parallel_results(entries, done, request, config);
    lemma_candidates_origin(entries, n, cap, request, config);
    lemma_evaluated_origin(candidates, done, candidates.len() as int, request, config);
    lemma_ranked_results(found, request.limit);
    assert forall|i: int| 0 <= i < out.len() implies has_origin(
        #[trigger] out[i],
        entries,
        n,
        request,
        config,
    ) by {
        let w = choose|w: int| 0 <= w < found.len() && found[w] == out[i];
        let c = choose|c: int|
            0 <= c < candidates.len() && done[c] && #[trigger] evaluation_of(
                candidates[c],
                request,
                config,
            ) == Some(found[w]);
        let k = choose|k: int|
            0 <= k < n && #[trigger] is_visible(entries, k, request, config) && entries[k]
                == candidates[c];
        assert(comes_from(out[i], entries, k, request, config));
    }
}

/// In a file name search in exact mode, every result belongs to an entry
/// whose lowercase name contains the lowercase pattern.
pub proof fn lemma_exact_results_contain_pattern(
    result: SearchResultView,
    entries: Seq<Entry>,
    k: int,
    request: RequestView,
    config: Config,
)
    requires
        comes_from(result, entries, k, request, config),
        request.search_type() == Some(SearchType::FileName),
        request.match_mode == MatchMode::Exact,
    ensures
        result.path == entries[k].path@,
        entries[k].file_name is Some,
        is_substring_match(entries[k].file_name->0@, request.filename_pattern->0),
{
}

/// Where hidden entries are not asked for, neither the entry of a result nor
/// any entry that it lies below has a hidden name.
pub proof fn lemma_results_avoid_hidden_names(
    result: SearchResultView,
    entries: Seq<Entry>,
    k: int,
    request: RequestView,
    config: Config,
)
    requires
        comes_from(result, entries, k, request, config),
        !request.include_hidden,
        !config.include_hidden,
    ensures
        forall|j: int|
            j == k || #[trigger] is_ancestor(entries, j, k) ==> (entries[j].walk_name matches Some(
                name,
            ) ==> !is_hidden_name(name@)),
{
}

/// The file of a result, and every entry that it lies below, is within the
/// size ceiling and is reached by no ignore fragment or pattern.
pub proof fn lemma_results_respect_filter(
    result: SearchResultView,
    entries: Seq<Entry>,
    k: int,
    request: RequestView,
    config: Config,
)
    requires
        comes_from(result, entries, k, request, config),
    ensures
        entries[k].file_size matches Some(size) ==> size <= config.size_ceiling(),
        forall|j: int|
            j == k || #[trigger] is_ancestor(entries, j, k) ==> admits(
                entries[j],
                request,
                config,
            ),
{
}

/// A result has content matches only where the settings list the name of its
/// file as searchable.
pub proof fn lemma_results_scan_listed_files_only(
    result: SearchResultView,
    entries: Seq<Entry>,
    k: int,
    request: RequestView,
    config: Config,
)
    requires
        comes_from(result, entries, k, request, config),
        result.content_matches.len() > 0,
    ensures
        !entries[k].is_dir,
        entries[k].file_name is Some,
        config.searches_content_of(entries[k].file_name->0@),
{
}

/// A result is a match of the kind that was searched for: its name matched
/// in a file name search, its content in a content search, either in a hybrid
/// search. Its score is below 0 only where its name matched as a subsequence
/// alone, in fuzzy mode, with a score below 0.
pub proof fn lemma_results_are_matches(
    result: SearchResultView,
    entries: Seq<Entry>,
    k: int,
    request: RequestView,
    config: Config,
)
    requires
        comes_from(result, entries, k, request, config),
    ensures
        request.search_type() == Some(result.search_type),
        result.content_matches == content_found(entries[k], request, config),
        match result.search_type {
            SearchType::FileName => name_score_of(entries[k], request) is Some,
            SearchType::Content => result.content_matches.len() > 0,
            SearchType::Hybrid => name_score_of(entries[k], request) is Some
                || result.content_matches.len() > 0,
        },
        result.score < 0 ==> {
            &&& request.match_mode == MatchMode::Fuzzy
            &&& result.search_type != SearchType::Content
            &&& request.filename_pattern is Some
            &&& entries[k].file_name is Some
            &&& !is_substring_match(entries[k].file_name->0@, request.filename_pattern->0)
            &&& fuzzy_signal(entries[k].file_name->0@, request.filename_pattern->0) matches Some(
                score,
            ) && score < 0
        },
{
}

/// Two searches that look at the same entries under the same request and
/// settings return the same results in the same order, and so the same
/// multiset of paths with scores.
pub proof fn lemma_search_is_repeatable(
    first: Seq<Entry>,
    second: Seq<Entry>,
    n: int,
    request: RequestView,
    config: Config,
)
    requires
        0 <= n <= first.len(),
        n <= second.len(),
        forall|i: int| 0 <= i < n ==> first[i] == second[i],
    ensures
        sequential_results(first, n, request, config) == sequential_results(
            second,
            n,
            request,
            config,
        ),
        sequential_results(first, n, request, config).map_values(
            |r: SearchResultView| (r.path, r.score),
        ).to_multiset() == sequential_results(second, n, request, config).map_values(
            |r: SearchResultView| (r.path, r.score),
        ).to_multiset(),
{
    lemma_prefix_decides(first, second, n, request, config);
}

/// Where the first `n` entries are no more than the cap allows and every
/// candidate is evaluated, the two phases find what a walk entry by entry
/// finds.
pub proof fn lemma_phases_collect_the_same(
    entries: Seq<Entry>,
    n: int,
    cap: nat,
    done: Seq<bool>,
    request: RequestView,
    config: Config,
)
    requires
        0 <= n <= entries.len(),
        n <= cap,
        n <= done.len(),
        forall|i: int| 0 <= i < n ==> done[i],
    ensures
        candidates_of(entries, n, cap, request, config).len() <= n,
        evaluated(
            candidates_of(entries, n, cap, request, config),
            done,
            candidates_of(entries, n, cap, request, config).len() as int,
            request,
            config,
        ) == collected(entries, n, request, config),
    decreases n,
{
    if n > 0 {
        lemma_phases_collect_the_same(entries, n - 1, cap, done, request, config);
        let earlier = candidates_of(entries, n - 1, cap, request, config);
        let all = candidates_of(entries, n, cap, request, config);
        if is_visible(entries, n - 1, request, config) {
            lemma_evaluated_prefix(
                all,
                done,
                earlier,
                done,
                earlier.len() as int,
                request,
                config,
            );
        }
    }
}

/// A parallel search that is not cancelled and whose cap is not below the
/// number of entries returns what the sequential search of all entries
/// returns.
pub proof fn lemma_parallel_agrees_with_sequential(
    entries: Seq<Entry>,
    done: Seq<bool>,
    request: RequestView,
    config: Config,
)
    requires
        entries.len() <= config.max_files_per_search,
        done.len() == candidates_of(
            entries,
            entries.len() as int,
            config.max_files_per_search as nat,
            request,
            config,
        ).len(),
        forall|i: int| 0 <= i < done.len() ==> done[i],
    ensures
        parallel_results(entries, done, request, config) == sequential_results(
            entries,
            entries.len() as int,
            request,
            config,
        ),
{
    let cap = config.max_files_per_search as nat;
    let n = entries.len() as int;
    let candidates = candidates_of(entries, n, cap, request, config);
    let every = Seq::new(entries.len(), |i: int| true);
    lemma_phases_collect_the_same(entries, n, cap, every, request, config);
    lemma_evaluated_prefix(
        candidates,
        done,
        candidates,
        every,
        candidates.len() as int,
        request,
        config,
    );
}

} // verus!
