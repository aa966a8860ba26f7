//! Scoring a file name against a pattern.

use crate::cli::MatchMode;
use crate::text::{
    contains, contains_seq, has_prefix, lemma_prefix_is_contained, lower_chars_of, lowercase_of,
    starts_with,
};
use fuzzy_matcher::skim::SkimMatcherV2;
use fuzzy_matcher::FuzzyMatcher;
use vstd::prelude::*;

verus! {

/// The score of a case-insensitive substring match.
pub const SUBSTRING_SCORE: i64 = 100;

/// The score of a case-insensitive prefix match.
pub const PREFIX_SCORE: i64 = 150;

/// Names and patterns longer than this many characters are not handed to the
/// subsequence scorer, whose 32-bit score arithmetic is only known to stay in
/// range for shorter inputs.
pub const FUZZY_INPUT_LIMIT: usize = 1048576;

/// The score that the skim matcher (version 2, default settings) gives to
/// `choice` for `pattern`, `None` where it finds no match.
pub uninterp spec fn skim_score(choice: Seq<char>, pattern: Seq<char>) -> Option<i64>;

/// An ASCII capital letter.
pub open spec fn is_ascii_upper(c: char) -> bool {
    'A' <= c <= 'Z'
}

/// `c` with an ASCII capital letter replaced by its small letter.
pub open spec fn ascii_lower(c: char) -> char {
    if is_ascii_upper(c) {
        ((c as u32) + 32) as char
    } else {
        c
    }
}

/// Some character of `pattern` is an ASCII capital letter.
pub open spec fn has_ascii_upper(pattern: Seq<char>) -> bool {
    exists|i: int| 0 <= i < pattern.len() && is_ascii_upper(#[trigger] pattern[i])
}

/// Two characters count as equal: exactly, or up to ASCII case.
pub open spec fn chars_agree(a: char, b: char, case_sensitive: bool) -> bool {
    if case_sensitive {
        a == b
    } else {
        ascii_lower(a) == ascii_lower(b)
    }
}

/// The characters of `pattern` appear in `choice` in order, not necessarily
/// next to each other.
pub open spec fn is_subsequence(choice: Seq<char>, pattern: Seq<char>, case_sensitive: bool) -> bool
    decreases choice.len(),
{
    if pattern.len() == 0 {
        true
    } else if choice.len() == 0 {
        false
    } else if chars_agree(choice[0], pattern[0], case_sensitive) {
        is_subsequence(choice.drop_first(), pattern.drop_first(), case_sensitive)
    } else {
        is_subsequence(choice.drop_first(), pattern, case_sensitive)
    }
}

/// The matcher's smart case rule: a pattern with an ASCII capital letter is
/// compared exactly, any other pattern up to ASCII case.
pub open spec fn is_smart_subsequence(choice: Seq<char>, pattern: Seq<char>) -> bool {
    is_subsequence(choice, pattern, has_ascii_upper(pattern))
}

/// Calls `SkimMatcherV2::default().fuzzy_match(choice, pattern)` of the
/// fuzzy-matcher crate. The score comes out of a dynamic program over bonuses
/// and gap penalties and is only named. Three things are taken from the
/// crate's source besides: a match is reported exactly when the pattern is a
/// subsequence of the choice under the smart case rule, an empty pattern
/// scores 0, and every score is a 32-bit number. Inputs are kept short enough
/// for the crate's 32-bit arithmetic.
#[verifier::external_body]
pub(crate) fn skim_fuzzy_match(choice: &str, pattern: &str) -> (r: Option<i64>)
    requires
        choice@.len() <= FUZZY_INPUT_LIMIT,
        pattern@.len() <= FUZZY_INPUT_LIMIT,
    ensures
        r == skim_score(choice@, pattern@),
        r is Some <==> is_smart_subsequence(choice@, pattern@),
        pattern@.len() == 0 ==> r == Some(0i64),
        r matches Some(v) ==> i32::MIN <= v <= i32::MAX,
{
    SkimMatcherV2::default().fuzzy_match(choice, pattern)
}

/// The subsequence signal: the skim score where both inputs are within
/// [`FUZZY_INPUT_LIMIT`], nothing otherwise.
pub open spec fn fuzzy_signal(name: Seq<char>, pattern: Seq<char>) -> Option<i64> {
    if name.len() <= FUZZY_INPUT_LIMIT && pattern.len() <= FUZZY_INPUT_LIMIT {
        skim_score(name, pattern)
    } else {
        None
    }
}

/// The lowercase name contains the lowercase pattern.
pub open spec fn is_substring_match(name: Seq<char>, pattern: Seq<char>) -> bool {
    contains_seq(lowercase_of(name), lowercase_of(pattern))
}

/// The lowercase name begins with the lowercase pattern.
pub open spec fn is_prefix_match(name: Seq<char>, pattern: Seq<char>) -> bool {
    has_prefix(lowercase_of(name), lowercase_of(pattern))
}

/// The substring signal: a fixed score where the pattern is contained.
pub open spec fn substring_signal(name: Seq<char>, pattern: Seq<char>) -> Option<i64> {
    if is_substring_match(name, pattern) {
        Some(SUBSTRING_SCORE)
    } else {
        None
    }
}

/// The prefix signal: a fixed score where the name begins with the pattern.
pub open spec fn prefix_signal(name: Seq<char>, pattern: Seq<char>) -> Option<i64> {
    if is_prefix_match(name, pattern) {
        Some(PREFIX_SCORE)
    } else {
        None
    }
}

/// The larger of two optional scores, an absent one counting as no score.
pub open spec fn best_of(a: Option<i64>, b: Option<i64>) -> Option<i64> {
    match (a, b) {
        (Some(x), Some(y)) => Some(if x >= y { x } else { y }),
        (Some(x), None) => Some(x),
        (None, Some(y)) => Some(y),
        (None, None) => None,
    }
}

/// The score of a name for a pattern: in exact mode the substring signal, in
/// fuzzy mode the best of the subsequence, substring and prefix signals.
pub open spec fn best_match_score(name: Seq<char>, pattern: Seq<char>, mode: MatchMode) -> Option<i64> {
    match mode {
        MatchMode::Exact => substring_signal(name, pattern),
        MatchMode::Fuzzy => best_of(
            best_of(fuzzy_signal(name, pattern), substring_signal(name, pattern)),
            prefix_signal(name, pattern),
        ),
    }
}

/// Whether a name matches a pattern at all, stated without any score.
pub open spec fn name_matches(name: Seq<char>, pattern: Seq<char>, mode: MatchMode) -> bool {
    match mode {
        MatchMode::Exact => is_substring_match(name, pattern),
        MatchMode::Fuzzy => {
            ||| is_substring_match(name, pattern)
            ||| (name.len() <= FUZZY_INPUT_LIMIT && pattern.len() <= FUZZY_INPUT_LIMIT
                && is_smart_subsequence(name, pattern))
        },
    }
}

/// The larger of two optional scores.
pub fn pick_best(a: Option<i64>, b: Option<i64>) -> (r: Option<i64>)
    ensures
        r == best_of(a, b),
{
    match (a, b) {
        (Some(x), Some(y)) => Some(if x >= y { x } else { y }),
        (Some(x), None) => Some(x),
        (None, Some(y)) => Some(y),
        (None, None) => None,
    }
}

/// The subsequence score of `name` for `pattern`, or `None` where there is no
/// subsequence match or an input is longer than [`FUZZY_INPUT_LIMIT`].
pub fn fuzzy_score(name: &str, pattern: &str) -> (r: Option<i64>)
    ensures
        r == fuzzy_signal(name@, pattern@),
        r is Some <==> (name@.len() <= FUZZY_INPUT_LIMIT && pattern@.len() <= FUZZY_INPUT_LIMIT
            && is_smart_subsequence(name@, pattern@)),
        r matches Some(v) ==> i32::MIN <= v <= i32::MAX,
{
    if name.unicode_len() <= FUZZY_INPUT_LIMIT && pattern.unicode_len() <= FUZZY_INPUT_LIMIT {
        skim_fuzzy_match(name, pattern)
    } else {
        None
    }
}

/// Scores `filename` against `pattern`; `None` means that the name does not
/// match.
pub fn get_best_match_score(filename: &str, pattern: &str, match_mode: &MatchMode) -> (r: Option<i64>)
    ensures
        r == best_match_score(filename@, pattern@, *match_mode),
        r is Some <==> name_matches(filename@, pattern@, *match_mode),
        r matches Some(v) ==> i32::MIN <= v <= i32::MAX,
        *match_mode == MatchMode::Exact && r is Some ==> r == Some(SUBSTRING_SCORE),
{
    let name_lower = lower_chars_of(filename);
    let pattern_lower = lower_chars_of(pattern);
    let substring = if contains(&name_lower, &pattern_lower) {
        Some(SUBSTRING_SCORE)
    } else {
        None
    };
    match match_mode {
        MatchMode::Exact => substring,
        MatchMode::Fuzzy => {
            let fuzzy = fuzzy_score(filename, pattern);
            let prefix = if starts_with(&name_lower, &pattern_lower) {
                Some(PREFIX_SCORE)
            } else {
                None
            };
            proof {
                if prefix is Some {
                    lemma_prefix_is_contained(name_lower@, pattern_lower@);
                }
            }
            pick_best(pick_best(fuzzy, substring), prefix)
        },
    }
}

/// What each kind of match is worth in fuzzy mode: a prefix match scores at
/// least 150, a substring match at least 100, and a name that matches as a
/// subsequence only scores what the subsequence scorer gives it.
pub proof fn lemma_fuzzy_score_floors(name: Seq<char>, pattern: Seq<char>)
    ensures
        is_prefix_match(name, pattern) ==> (best_match_score(name, pattern, MatchMode::Fuzzy)
            matches Some(score) && score >= PREFIX_SCORE),
        is_substring_match(name, pattern) ==> (best_match_score(name, pattern, MatchMode::Fuzzy)
            matches Some(score) && score >= SUBSTRING_SCORE),
        !is_substring_match(name, pattern) ==> best_match_score(name, pattern, MatchMode::Fuzzy)
            == fuzzy_signal(name, pattern),
{
    if is_prefix_match(name, pattern) {
        lemma_prefix_is_contained(lowercase_of(name), lowercase_of(pattern));
    }
}

/// The ranking of fuzzy mode: a name that begins with the pattern scores no
/// less than a name that only contains it, which scores no less than a name
/// that matches as a subsequence only. This holds as long as the subsequence
/// score of the lower ranked name does not exceed both the fixed score of the
/// higher rank and the subsequence score of the higher ranked name.
pub proof fn lemma_fuzzy_ranking(
    prefixed: Seq<char>,
    inner: Seq<char>,
    loose: Seq<char>,
    pattern: Seq<char>,
)
    requires
        is_prefix_match(prefixed, pattern),
        is_substring_match(inner, pattern),
        !is_prefix_match(inner, pattern),
        fuzzy_signal(loose, pattern) is Some,
        !is_substring_match(loose, pattern),
        fuzzy_signal(inner, pattern) matches Some(score) ==> score <= PREFIX_SCORE || (
        fuzzy_signal(prefixed, pattern) matches Some(higher) && score <= higher),
        fuzzy_signal(loose, pattern) matches Some(score) ==> score <= SUBSTRING_SCORE || (
        fuzzy_signal(inner, pattern) matches Some(higher) && score <= higher),
    ensures
        best_match_score(prefixed, pattern, MatchMode::Fuzzy) is Some,
        best_match_score(inner, pattern, MatchMode::Fuzzy) is Some,
        best_match_score(loose, pattern, MatchMode::Fuzzy) is Some,
        best_match_score(prefixed, pattern, MatchMode::Fuzzy)->0 >= best_match_score(
            inner,
            pattern,
            MatchMode::Fuzzy,
        )->0,
        best_match_score(inner, pattern, MatchMode::Fuzzy)->0 >= best_match_score(
            loose,
            pattern,
            MatchMode::Fuzzy,
        )->0,
{
    lemma_fuzzy_score_floors(prefixed, pattern);
    lemma_fuzzy_score_floors(inner, pattern);
    lemma_fuzzy_score_floors(loose, pattern);
}

/// In exact mode a name matches exactly when its lowercase form contains the
/// lowercase pattern, and every match scores 100.
pub proof fn lemma_exact_score(name: Seq<char>, pattern: Seq<char>)
    ensures
        best_match_score(name, pattern, MatchMode::Exact) is Some <==> is_substring_match(
            name,
            pattern,
        ),
        best_match_score(name, pattern, MatchMode::Exact) is Some ==> best_match_score(
            name,
            pattern,
            MatchMode::Exact,
        ) == Some(SUBSTRING_SCORE),
{
}

} // verus!
