//! The entries of a walk and which of them are visible.
//!
//! A walk reports the entries of a tree in depth-first order, each directory
//! before what lies below it, and tells the depth of each entry. An entry
//! lies below an earlier one when that one is shallower and nothing as
//! shallow stands between them. An entry is visible when the filter admits
//! it and every entry that it lies below.

use crate::config::Config;
use crate::evaluate::RequestView;
use crate::filter::entry_admitted;
use crate::model::Entry;
use vstd::prelude::*;

verus! {

/// The name under which the walk reports an entry, as characters.
pub open spec fn walk_name_of(entry: Entry) -> Option<Seq<char>> {
    match entry.walk_name {
        Some(name) => Some(name@),
        None => None,
    }
}

/// The filter admits the entry.
pub open spec fn admits(entry: Entry, request: RequestView, config: Config) -> bool {
    entry_admitted(walk_name_of(entry), entry.file_size, false, request.include_hidden, config)
}

/// Entry `j` comes before position `k` and nothing between them is as
/// shallow as `j`: what comes at `k` lies below `j` if it is deeper than `j`.
pub open spec fn is_open(entries: Seq<Entry>, j: int, k: int) -> bool {
    &&& 0 <= j < k <= entries.len()
    &&& forall|i: int| j < i < k ==> entries[j].depth < #[trigger] entries[i].depth
}

/// Entry `k` lies below entry `j`.
pub open spec fn is_ancestor(entries: Seq<Entry>, j: int, k: int) -> bool {
    &&& 0 <= j < k < entries.len()
    &&& forall|i: int| j < i <= k ==> entries[j].depth < #[trigger] entries[i].depth
}

/// Entry `k` is visible: the filter admits it and every entry that it lies
/// below.
pub open spec fn is_visible(entries: Seq<Entry>, k: int, request: RequestView, config: Config) -> bool {
    &&& 0 <= k < entries.len()
    &&& admits(entries[k], request, config)
    &&& forall|j: int| #[trigger]
        is_ancestor(entries, j, k) ==> admits(entries[j], request, config)
}

/// Entry `k` lies below an entry that the filter does not admit.
pub open spec fn has_excluded_ancestor(
    entries: Seq<Entry>,
    k: int,
    request: RequestView,
    config: Config,
) -> bool {
    exists|j: int| #[trigger] is_ancestor(entries, j, k) && !admits(entries[j], request, config)
}

/// The depth of the entry that was left out last and under which position
/// `k` may still lie, if there is one.
pub open spec fn pruned_depth(entries: Seq<Entry>, k: int, request: RequestView, config: Config) -> Option<
    usize,
>
    decreases k,
{
    if k <= 0 {
        None
    } else {
        let before = pruned_depth(entries, k - 1, request, config);
        let entry = entries[k - 1];
        if before matches Some(depth) && entry.depth > depth {
            before
        } else if admits(entry, request, config) {
            None
        } else {
            Some(entry.depth)
        }
    }
}

/// Entry `k` lies below an entry that was left out.
pub open spec fn is_below_pruned(entries: Seq<Entry>, k: int, request: RequestView, config: Config) -> bool {
    pruned_depth(entries, k, request, config) matches Some(depth) && entries[k].depth > depth
}

/// What the depth of the entry left out last says about the entries that
/// position `k` may lie below.
pub proof fn lemma_pruned_depth(entries: Seq<Entry>, k: int, request: RequestView, config: Config)
    requires
        0 <= k <= entries.len(),
    ensures
        match pruned_depth(entries, k, request, config) {
            None => forall|j: int| #[trigger]
                is_open(entries, j, k) ==> admits(entries[j], request, config),
            Some(depth) => {
                &&& exists|j: int| #[trigger]
                    is_open(entries, j, k) && entries[j].depth == depth && !admits(
                        entries[j],
                        request,
                        config,
                    )
                &&& forall|j: int| #[trigger]
                    is_open(entries, j, k) && entries[j].depth < depth ==> admits(
                        entries[j],
                        request,
                        config,
                    )
            },
        },
    decreases k,
{
    if k > 0 {
        lemma_pruned_depth(entries, k - 1, request, config);
        let before = pruned_depth(entries, k - 1, request, config);
        let entry = entries[k - 1];
        if before is Some && entry.depth > before->0 {
            let depth = before->0;
            let j = choose|j: int| #[trigger]
                is_open(entries, j, k - 1) && entries[j].depth == depth && !admits(
                    entries[j],
                    request,
                    config,
                );
            assert(is_open(entries, j, k));
            assert forall|i: int| #[trigger]
                is_open(entries, i, k) && entries[i].depth < depth implies admits(
                entries[i],
                request,
                config,
            ) by {
                if i < k - 1 {
                    assert(is_open(entries, i, k - 1));
                }
            }
        } else {
            // Every entry that position `k - 1` may lie below and that is
            // shallower than the entry there is admitted.
            assert forall|i: int| #[trigger]
                is_open(entries, i, k - 1) && entries[i].depth < entry.depth implies admits(
                entries[i],
                request,
                config,
            ) by {}
            if admits(entry, request, config) {
                assert forall|i: int| #[trigger] is_open(entries, i, k) implies admits(
                    entries[i],
                    request,
                    config,
                ) by {
                    if i < k - 1 {
                        assert(is_open(entries, i, k - 1));
                    }
                }
            } else {
                assert(is_open(entries, k - 1, k));
                assert forall|i: int| #[trigger]
                    is_open(entries, i, k) && entries[i].depth < entry.depth implies admits(
                    entries[i],
                    request,
                    config,
                ) by {
                    if i < k - 1 {
                        assert(is_open(entries, i, k - 1));
                    }
                }
            }
        }
    }
}

/// An entry is visible exactly when the filter admits it and it does not lie
/// below the entry that was left out last.
pub proof fn lemma_visible_iff_not_pruned(
    entries: Seq<Entry>,
    k: int,
    request: RequestView,
    config: Config,
)
    requires
        0 <= k < entries.len(),
    ensures
        is_visible(entries, k, request, config) <==> (admits(entries[k], request, config)
            && !is_below_pruned(entries, k, request, config)),
        is_below_pruned(entries, k, request, config) <==> has_excluded_ancestor(
            entries,
            k,
            request,
            config,
        ),
{
    lemma_pruned_depth(entries, k, request, config);
    // An entry lies below another exactly when that one is open at its
    // position and shallower.
    assert forall|j: int| is_ancestor(entries, j, k) <==> (is_open(entries, j, k)
        && entries[j].depth < entries[k].depth) by {}
    if is_below_pruned(entries, k, request, config) {
        let depth = pruned_depth(entries, k, request, config)->0;
        let j = choose|j: int| #[trigger]
            is_open(entries, j, k) && entries[j].depth == depth && !admits(
                entries[j],
                request,
                config,
            );
        assert(is_ancestor(entries, j, k));
    }
}

} // verus!
