//! Scanning the lines of a file for a pattern.

use crate::cli::MatchMode;
use crate::model::{match_views, ContentMatch, ContentMatchView};
use crate::scoring::{fuzzy_score, fuzzy_signal};
use crate::text::{
    byte_len, chars_of, contains, contains_seq, lemma_occurrence_within_bytes,
    lemma_utf8_len_take, lowercase_of, matches_at, occurs_at, to_lowercase, utf8_len, utf8_width,
};
use vstd::prelude::*;

verus! {

/// A line is scanned for occurrences when its lowercase form contains the
/// lowercase pattern or, in fuzzy mode, when the pattern is a subsequence
/// match of the line.
pub open spec fn line_is_hit(line: Seq<char>, pattern: Seq<char>, mode: MatchMode) -> bool {
    ||| contains_seq(lowercase_of(line), lowercase_of(pattern))
    ||| (mode == MatchMode::Fuzzy && fuzzy_signal(line, pattern) is Some)
}

/// The record of the occurrence that begins at character `i` of the lowercase
/// line.
pub open spec fn occurrence_record(
    line: Seq<char>,
    line_number: nat,
    pattern: Seq<char>,
    i: int,
) -> ContentMatchView {
    ContentMatchView {
        line_number,
        line_content: line,
        match_start: utf8_len(lowercase_of(line).take(i)),
        match_end: utf8_len(lowercase_of(line).take(i)) + utf8_len(lowercase_of(pattern)),
    }
}

/// The records of the occurrences that begin before character `n`, from left
/// to right. Occurrences may overlap: the scan moves on by one character after
/// each one.
pub open spec fn occurrences_before(
    line: Seq<char>,
    line_number: nat,
    pattern: Seq<char>,
    n: int,
) -> Seq<ContentMatchView>
    decreases n,
{
    if n <= 0 {
        Seq::empty()
    } else {
        let earlier = occurrences_before(line, line_number, pattern, n - 1);
        if occurs_at(lowercase_of(line), lowercase_of(pattern), n - 1) {
            earlier.push(occurrence_record(line, line_number, pattern, n - 1))
        } else {
            earlier
        }
    }
}

/// Every occurrence of the pattern in a line.
pub open spec fn all_occurrences(line: Seq<char>, line_number: nat, pattern: Seq<char>) -> Seq<
    ContentMatchView,
> {
    occurrences_before(line, line_number, pattern, lowercase_of(line).len() as int + 1)
}

/// The matches that one line contributes.
pub open spec fn line_matches(
    line: Seq<char>,
    line_number: nat,
    pattern: Seq<char>,
    mode: MatchMode,
) -> Seq<ContentMatchView> {
    if line_is_hit(line, pattern, mode) {
        all_occurrences(line, line_number, pattern)
    } else {
        Seq::empty()
    }
}

/// The matches of a whole file: those of its lines in order, lines counted
/// from 1.
pub open spec fn content_matches(lines: Seq<Seq<char>>, pattern: Seq<char>, mode: MatchMode) -> Seq<
    ContentMatchView,
>
    decreases lines.len(),
{
    if lines.len() == 0 {
        Seq::empty()
    } else {
        content_matches(lines.drop_last(), pattern, mode) + line_matches(
            lines.last(),
            lines.len(),
            pattern,
            mode,
        )
    }
}

/// A line without an occurrence before `n` has no record before `n`.
pub proof fn lemma_no_occurrence_no_record(
    line: Seq<char>,
    line_number: nat,
    pattern: Seq<char>,
    n: int,
)
    requires
        !contains_seq(lowercase_of(line), lowercase_of(pattern)),
    ensures
        occurrences_before(line, line_number, pattern, n).len() == 0,
    decreases n,
{
    if n > 0 {
        lemma_no_occurrence_no_record(line, line_number, pattern, n - 1);
    }
}

/// The matches of a line are its occurrences in either mode: a line that is
/// hit through its subsequence score alone has no occurrence to record.
pub proof fn lemma_line_matches_are_occurrences(
    line: Seq<char>,
    line_number: nat,
    pattern: Seq<char>,
    mode: MatchMode,
)
    ensures
        line_matches(line, line_number, pattern, mode) == all_occurrences(
            line,
            line_number,
            pattern,
        ),
{
    if !contains_seq(lowercase_of(line), lowercase_of(pattern)) {
        lemma_no_occurrence_no_record(
            line,
            line_number,
            pattern,
            lowercase_of(line).len() as int + 1,
        );
    }
}

/// The matches of a file do not depend on the match mode.
pub proof fn lemma_content_matches_same_in_both_modes(lines: Seq<Seq<char>>, pattern: Seq<char>)
    ensures
        content_matches(lines, pattern, MatchMode::Fuzzy) == content_matches(
            lines,
            pattern,
            MatchMode::Exact,
        ),
    decreases lines.len(),
{
    if lines.len() > 0 {
        lemma_content_matches_same_in_both_modes(lines.drop_last(), pattern);
        lemma_line_matches_are_occurrences(lines.last(), lines.len(), pattern, MatchMode::Fuzzy);
        lemma_line_matches_are_occurrences(lines.last(), lines.len(), pattern, MatchMode::Exact);
    }
}

/// Appends the matches of one line to `out`.
fn scan_line_into(
    line: &String,
    line_number: usize,
    pattern: &str,
    pattern_lower: &Vec<char>,
    pattern_bytes: usize,
    match_mode: &MatchMode,
    out: &mut Vec<ContentMatch>,
)
    requires
        pattern_lower@ == lowercase_of(pattern@),
        pattern_bytes == utf8_len(lowercase_of(pattern@)),
    ensures
        match_views(final(out)@) == match_views(old(out)@) + line_matches(
            line@,
            line_number as nat,
            pattern@,
            *match_mode,
        ),
{
    let lowered = to_lowercase(line.as_str());
    let lower_chars = chars_of(lowered.as_str());
    let total = byte_len(lowered.as_str());
    let hit = contains(&lower_chars, pattern_lower) || (match *match_mode {
        MatchMode::Fuzzy => fuzzy_score(line.as_str(), pattern).is_some(),
        MatchMode::Exact => false,
    });
    if !hit {
        return ;
    }
    let len = lower_chars.len();
    let ghost before = match_views(out@);
    let mut i: usize = 0;
    let mut offset: usize = 0;
    loop
        invariant_except_break
            offset == utf8_len(lower_chars@.take(i as int)),
            match_views(out@) == before + occurrences_before(
                line@,
                line_number as nat,
                pattern@,
                i as int,
            ),
        invariant
            lower_chars@ == lowercase_of(line@),
            pattern_lower@ == lowercase_of(pattern@),
            pattern_bytes == utf8_len(lowercase_of(pattern@)),
            total == utf8_len(lower_chars@),
            len == lower_chars.len(),
            i <= len,
        ensures
            match_views(out@) == before + occurrences_before(
                line@,
                line_number as nat,
                pattern@,
                len + 1,
            ),
        decreases len - i,
    {
        let ghost earlier = out@;
        if matches_at(&lower_chars, pattern_lower, i) {
            proof {
                lemma_occurrence_within_bytes(lower_chars@, pattern_lower@, i as int);
            }
            let found = ContentMatch {
                line_number,
                line_content: line.clone(),
                match_start: offset,
                match_end: offset + pattern_bytes,
            };
            out.push(found);
            assert(match_views(out@) =~= match_views(earlier).push(found@));
        }
        if i == len {
            break ;
        }
        proof {
            lemma_utf8_len_take(lower_chars@, i as int);
            lemma_utf8_len_take(lower_chars@, i + 1);
        }
        offset += utf8_width(lower_chars[i]);
        i += 1;
    }
}

/// The matches of one line of a file.
pub fn scan_line(line: &String, line_number: usize, pattern: &str, match_mode: &MatchMode) -> (r:
    Vec<ContentMatch>)
    ensures
        match_views(r@) == line_matches(line@, line_number as nat, pattern@, *match_mode),
{
    let pattern_lowered = to_lowercase(pattern);
    let pattern_lower = chars_of(pattern_lowered.as_str());
    let pattern_bytes = byte_len(pattern_lowered.as_str());
    let mut out: Vec<ContentMatch> = Vec::new();
    scan_line_into(line, line_number, pattern, &pattern_lower, pattern_bytes, match_mode, &mut out);
    out
}

/// Scans the lines of a file for `pattern` and returns every occurrence, line
/// by line.
pub fn search_file_content(lines: &Vec<String>, pattern: &str, match_mode: &MatchMode) -> (r: Vec<
    ContentMatch,
>)
    ensures
        match_views(r@) == content_matches(lines.deep_view(), pattern@, *match_mode),
{
    let pattern_lowered = to_lowercase(pattern);
    let pattern_lower = chars_of(pattern_lowered.as_str());
    let pattern_bytes = byte_len(pattern_lowered.as_str());
    let mut out: Vec<ContentMatch> = Vec::new();
    let n = lines.len();
    let mut k: usize = 0;
    while k < n
        invariant
            n == lines.len(),
            k <= n,
            pattern_lower@ == lowercase_of(pattern@),
            pattern_bytes == utf8_len(lowercase_of(pattern@)),
            match_views(out@) == content_matches(
                lines.deep_view().take(k as int),
                pattern@,
                *match_mode,
            ),
        decreases n - k,
    {
        scan_line_into(
            &lines[k],
            k + 1,
            pattern,
            &pattern_lower,
            pattern_bytes,
            match_mode,
            &mut out,
        );
        proof {
            let all = lines.deep_view();
            let next = all.take(k + 1);
            assert(next.drop_last() =~= all.take(k as int));
        }
        k += 1;
    }
    assert(lines.deep_view().take(n as int) =~= lines.deep_view());
    out
}

} // verus!
