//! Ordering results by score.
//!
//! Results are ranked by score, highest first. Results of equal score keep the
//! order in which they were found, so the ranking of a list is unique.

use crate::model::{result_views, SearchResult, SearchResultView};
use vstd::prelude::*;

verus! {

/// The scores never rise from one result to the next.
pub open spec fn is_ranked(results: Seq<SearchResultView>) -> bool {
    forall|i: int, j: int| 0 <= i <= j < results.len() ==> results[i].score >= results[j].score
}

/// `ranked` with `x` put in its place, where `x` was found before every
/// result of `ranked`: it goes in front of the first result whose score is not
/// higher than its own.
pub open spec fn insert_ranked(ranked: Seq<SearchResultView>, x: SearchResultView) -> Seq<
    SearchResultView,
>
    decreases ranked.len(),
{
    if ranked.len() == 0 || ranked[0].score <= x.score {
        seq![x] + ranked
    } else {
        seq![ranked[0]] + insert_ranked(ranked.drop_first(), x)
    }
}

/// The ranking of `results`.
pub open spec fn rank_desc(results: Seq<SearchResultView>) -> Seq<SearchResultView>
    decreases results.len(),
{
    if results.len() == 0 {
        Seq::empty()
    } else {
        insert_ranked(rank_desc(results.drop_first()), results[0])
    }
}

/// The results of `results` that score `score`, in their order.
pub open spec fn of_score(results: Seq<SearchResultView>, score: int) -> Seq<SearchResultView>
    decreases results.len(),
{
    if results.len() == 0 {
        Seq::empty()
    } else if results[0].score == score {
        seq![results[0]] + of_score(results.drop_first(), score)
    } else {
        of_score(results.drop_first(), score)
    }
}

/// The first `limit` results of `results`.
pub open spec fn cut_to(results: Seq<SearchResultView>, limit: nat) -> Seq<SearchResultView> {
    if limit < results.len() {
        results.take(limit as int)
    } else {
        results
    }
}

/// The first `limit` results of the ranking.
pub open spec fn ranked_results(results: Seq<SearchResultView>, limit: nat) -> Seq<
    SearchResultView,
> {
    cut_to(rank_desc(results), limit)
}

/// Putting a result in its place keeps a ranking ranked and adds exactly that
/// result.
pub proof fn lemma_insert_ranked(ranked: Seq<SearchResultView>, x: SearchResultView)
    requires
        is_ranked(ranked),
    ensures
        is_ranked(insert_ranked(ranked, x)),
        insert_ranked(ranked, x).len() == ranked.len() + 1,
        insert_ranked(ranked, x).to_multiset() == ranked.to_multiset().insert(x),
    decreases ranked.len(),
{
    broadcast use vstd::seq_lib::group_to_multiset_ensures;

    let out = insert_ranked(ranked, x);
    if ranked.len() == 0 || ranked[0].score <= x.score {
        assert(out =~= ranked.insert(0, x));
        vstd::seq_lib::to_multiset_insert(ranked, 0, x);
    } else {
        let rest = ranked.drop_first();
        assert(is_ranked(rest));
        lemma_insert_ranked(rest, x);
        let tail = insert_ranked(rest, x);
        // Every result of the tail is `x` or a result of `rest`, so none of
        // them scores higher than the first result.
        assert forall|k: int| 0 <= k < tail.len() implies ranked[0].score
            >= #[trigger] tail[k].score by {
            assert(tail.to_multiset().count(tail[k]) > 0);
        }
        assert(out =~= tail.insert(0, ranked[0]));
        vstd::seq_lib::to_multiset_insert(tail, 0, ranked[0]);
        assert(ranked =~= rest.insert(0, ranked[0]));
        vstd::seq_lib::to_multiset_insert(rest, 0, ranked[0]);
    }
}

/// A ranking is ranked and holds the results it was made from, each as often
/// as it was given.
pub proof fn lemma_rank_desc(results: Seq<SearchResultView>)
    ensures
        is_ranked(rank_desc(results)),
        rank_desc(results).len() == results.len(),
        rank_desc(results).to_multiset() == results.to_multiset(),
    decreases results.len(),
{
    broadcast use vstd::seq_lib::group_to_multiset_ensures;

    if results.len() > 0 {
        let rest = results.drop_first();
        lemma_rank_desc(rest);
        lemma_insert_ranked(rank_desc(rest), results[0]);
        assert(results =~= rest.insert(0, results[0]));
        vstd::seq_lib::to_multiset_insert(rest, 0, results[0]);
    }
}

/// The first results of a ranking are ranked, no more than `limit`, and each
/// of them is one of the results given.
pub proof fn lemma_ranked_results(results: Seq<SearchResultView>, limit: nat)
    ensures
        is_ranked(ranked_results(results, limit)),
        ranked_results(results, limit).len() == if limit < results.len() {
            limit
        } else {
            results.len()
        },
        forall|i: int|
            0 <= i < ranked_results(results, limit).len() ==> results.contains(
                #[trigger] ranked_results(results, limit)[i],
            ),
        forall|i: int, k: int|
            0 <= i < ranked_results(results, limit).len() && 0 <= k < results.len()
                && !ranked_results(results, limit).contains(results[k])
                ==> ranked_results(results, limit)[i].score >= results[k].score,
{
    broadcast use vstd::seq_lib::group_to_multiset_ensures;

    lemma_rank_desc(results);
    let ranked = rank_desc(results);
    let out = ranked_results(results, limit);
    assert forall|i: int| 0 <= i < out.len() implies results.contains(#[trigger] out[i]) by {
        assert(results.to_multiset().count(ranked[i]) > 0);
    }
    assert forall|i: int, k: int|
        0 <= i < out.len() && 0 <= k < results.len() && !out.contains(
            results[k],
        ) implies out[i].score >= results[k].score by {
        // The result left out stands in the ranking beyond the limit.
        assert(ranked.to_multiset().count(results[k]) > 0);
        let w = choose|w: int| 0 <= w < ranked.len() && ranked[w] == results[k];
        if w < out.len() {
            assert(out[w] == results[k]);
        }
    }
}

/// A result that is put in its place comes before the results of its own
/// score and leaves the results of every score in their order.
pub proof fn lemma_insert_ranked_keeps_order(
    ranked: Seq<SearchResultView>,
    x: SearchResultView,
    score: int,
)
    ensures
        of_score(insert_ranked(ranked, x), score) == if x.score == score {
            seq![x] + of_score(ranked, score)
        } else {
            of_score(ranked, score)
        },
    decreases ranked.len(),
{
    let out = insert_ranked(ranked, x);
    if ranked.len() == 0 || ranked[0].score <= x.score {
        assert(out.drop_first() =~= ranked);
    } else {
        lemma_insert_ranked_keeps_order(ranked.drop_first(), x, score);
        assert(out.drop_first() =~= insert_ranked(ranked.drop_first(), x));
    }
}

/// Ranking is stable: the results of any one score come out in the order in
/// which they were given.
pub proof fn lemma_ranking_is_stable(results: Seq<SearchResultView>, score: int)
    ensures
        of_score(rank_desc(results), score) == of_score(results, score),
    decreases results.len(),
{
    if results.len() > 0 {
        lemma_ranking_is_stable(results.drop_first(), score);
        lemma_insert_ranked_keeps_order(rank_desc(results.drop_first()), results[0], score);
    }
}

/// Where the first `j` results of a ranking score higher than `x` and the
/// next one does not, `x` belongs at index `j`.
pub proof fn lemma_insert_ranked_at(ranked: Seq<SearchResultView>, x: SearchResultView, j: int)
    requires
        0 <= j <= ranked.len(),
        forall|i: int| 0 <= i < j ==> ranked[i].score > x.score,
        j < ranked.len() ==> ranked[j].score <= x.score,
    ensures
        insert_ranked(ranked, x) == ranked.insert(j, x),
    decreases j,
{
    if j > 0 {
        lemma_insert_ranked_at(ranked.drop_first(), x, j - 1);
    }
}

/// What lies beyond the limit has no part in the first `limit` results once
/// a further result is put in its place.
pub proof fn lemma_insert_into_cut(ranked: Seq<SearchResultView>, x: SearchResultView, limit: nat)
    ensures
        cut_to(insert_ranked(ranked, x), limit) == cut_to(
            insert_ranked(cut_to(ranked, limit), x),
            limit,
        ),
    decreases ranked.len(),
{
    let kept = cut_to(ranked, limit);
    let part = insert_ranked(kept, x);
    if limit > 0 && ranked.len() > 0 && ranked[0].score > x.score {
        let rest = ranked.drop_first();
        let less = (limit - 1) as nat;
        lemma_insert_into_cut(rest, x, less);
        assert(kept.drop_first() =~= cut_to(rest, less));
        assert(cut_to(part, limit) =~= seq![ranked[0]] + cut_to(
            insert_ranked(cut_to(rest, less), x),
            less,
        ));
    }
}

/// Ranks `results` by score, highest first, results of equal score in the
/// order given, and keeps the first `limit` of them. The work grows with the
/// number of results times the limit.
pub fn rank_results(results: Vec<SearchResult>, limit: usize) -> (r: Vec<SearchResult>)
    ensures
        result_views(r@) == ranked_results(result_views(results@), limit as nat),
        r@.len() <= limit,
        r@.len() <= results@.len(),
        is_ranked(result_views(r@)),
{
    let ghost given = result_views(results@);
    let mut pending = results;
    let mut ranked: Vec<SearchResult> = Vec::new();
    while pending.len() > 0
        invariant
            pending@.len() <= given.len(),
            result_views(pending@) == given.take(pending@.len() as int),
            result_views(ranked@) == ranked_results(
                given.skip(pending@.len() as int),
                limit as nat,
            ),
        decreases pending@.len(),
    {
        let ghost before = pending@;
        let ghost placed = result_views(ranked@);
        let next = pending.pop().unwrap();
        let ghost n = pending@.len() as int;
        proof {
            assert(next@ == result_views(before)[n]);
            assert(given.skip(n).drop_first() =~= given.skip(n + 1));
            lemma_insert_into_cut(rank_desc(given.skip(n + 1)), next@, limit as nat);
        }
        let mut j: usize = 0;
        while j < ranked.len() && ranked[j].score > next.score
            invariant
                j <= ranked@.len(),
                result_views(ranked@) == placed,
                forall|i: int| 0 <= i < j ==> placed[i].score > next@.score,
            decreases ranked@.len() - j,
        {
            j += 1;
        }
        proof {
            lemma_insert_ranked_at(placed, next@, j as int);
        }
        if j < limit {
            ranked.insert(j, next);
            ranked.truncate(limit);
        }
    }
    proof {
        assert(given.skip(0) =~= given);
        lemma_ranked_results(given, limit as nat);
    }
    ranked
}

} // verus!
