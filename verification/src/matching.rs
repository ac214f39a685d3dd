//! Deciding whether a line matches and splitting it at the matched span.
//!
//! Detection order is a policy, not an optimization: the literal-substring
//! test always runs first and wins whenever the line contains the raw
//! pattern text; the compiled regular expression is consulted only when the
//! literal test fails.  A matching line is split into the text before the
//! first matched span, the matched text, and the text after it, so that the
//! three fragments concatenate back to the original line.  All positions
//! count characters, and columns are 1-based.

use vstd::prelude::*;
use vstd::string::StrSliceExecFns;

use crate::pattern::{regex_find_parts, regex_parts, Pattern};
use crate::search::{
    contains_pattern, find_substring, first_occurrence, lemma_first_occurrence,
    lemma_occurs_at_subrange,
};

verus! {

/// Which detection path produced a match.
#[derive(Debug, Clone, Copy, PartialEq, Eq, Structural)]
pub enum MatchKind {
    /// The line contains the raw pattern text; the span is its first
    /// occurrence.
    Literal,
    /// The line does not contain the raw text, but the compiled regular
    /// expression matches; the span is the engine's leftmost match.
    Regex,
}

/// The first matching span within one line: character offsets of its start
/// (inclusive) and end (exclusive), and the detection path that found it.
#[derive(Debug, Clone, Copy, PartialEq, Eq, Structural)]
pub struct MatchSpan {
    /// Character offset of the first matched character.
    pub start: usize,
    /// Character offset one past the last matched character.
    pub end: usize,
    /// Which detection path produced the span.
    pub kind: MatchKind,
}

/// One matching line, split at the matched span and annotated for display.
#[derive(Debug, Clone)]
pub struct HighlightedLine {
    /// 1-based line number within the file.
    pub line_number: usize,
    /// 1-based character column of the first matched character.
    pub column: usize,
    /// The text of the line before the matched span.
    pub before: String,
    /// The matched text itself.
    pub matched: String,
    /// The text of the line after the matched span.
    pub after: String,
}

/// The outcome of matching one line.
#[derive(Debug, Clone)]
pub enum MatchResult {
    /// The line matches; here is its split and position.
    Matched(HighlightedLine),
    /// The line matches neither literally nor by regular expression.
    NoMatch,
}

/// The span of the first match on `line`, by the two-step policy: the first
/// literal occurrence of `raw` when there is one, otherwise the regular
/// expression's leftmost match, otherwise `None`.  The span is given as
/// start offset, end offset and detection path.
pub open spec fn spec_span(raw: Seq<char>, line: Seq<char>) -> Option<(int, int, MatchKind)> {
    let f = first_occurrence(line, raw);
    if f >= 0 {
        Some((f, f + raw.len() as int, MatchKind::Literal))
    } else {
        match regex_parts(raw, line) {
            Some(t) => Some((t.0.len() as int, t.0.len() as int + t.1.len() as int, MatchKind::Regex)),
            None => None,
        }
    }
}

/// Everything `match_line` promises of its result `r`, as a relation over
/// the raw pattern text, the line and the 0-based line index: `r` reports a
/// match exactly when the two-step policy finds a span, and then carries
/// the 1-based line number and column and the three fragments of `line`
/// split at that span.
pub open spec fn match_line_post(
    r: MatchResult,
    raw: Seq<char>,
    line: Seq<char>,
    line_number: int,
) -> bool {
    match spec_span(raw, line) {
        Some(sp) => match r {
            MatchResult::Matched(h) => {
                &&& h.line_number == line_number + 1
                &&& h.column == sp.0 + 1
                &&& h.before@ == line.subrange(0, sp.0)
                &&& h.matched@ == line.subrange(sp.0, sp.1)
                &&& h.after@ == line.subrange(sp.1, line.len() as int)
            },
            MatchResult::NoMatch => false,
        },
        None => r is NoMatch,
    }
}

/// The content of a match result: `None` for no match, otherwise the line
/// number, column and the three fragments.
pub open spec fn result_view(r: MatchResult) -> Option<(int, int, Seq<char>, Seq<char>, Seq<char>)> {
    match r {
        MatchResult::Matched(h) => Some(
            (h.line_number as int, h.column as int, h.before@, h.matched@, h.after@),
        ),
        MatchResult::NoMatch => None,
    }
}

/// Find the span of the first match of `p` on `line`: the first literal
/// occurrence of the raw text when the line contains it, and the regular
/// expression's leftmost match otherwise.
pub fn find_span(p: &Pattern, line: &str) -> (r: Option<MatchSpan>)
    ensures
        match r {
            Some(s) => {
                &&& spec_span(p.raw_view(), line@) == Some((s.start as int, s.end as int, s.kind))
                &&& s.start <= s.end <= line@.len()
                &&& (s.kind is Regex ==> regex_parts(p.raw_view(), line@) == Some(
                    (
                        line@.subrange(0, s.start as int),
                        line@.subrange(s.start as int, s.end as int),
                        line@.subrange(s.end as int, line@.len() as int),
                    ),
                ))
            },
            None => spec_span(p.raw_view(), line@) is None,
        },
{
    let ln: usize = line.unicode_len();
    let raw = p.raw_text();
    match find_substring(line, raw) {
        Some(i) => {
            let m: usize = raw.unicode_len();
            proof {
                lemma_first_occurrence(line@, p.raw_view());
                assert(i + m <= ln);
            }
            Some(MatchSpan { start: i, end: i + m, kind: MatchKind::Literal })
        },
        None => match regex_find_parts(p, line) {
            Some(parts) => {
                let start: usize = parts.0.as_str().unicode_len();
                let mlen: usize = parts.1.as_str().unicode_len();
                proof {
                    assert(parts.0@ + parts.1@ + parts.2@ == line@);
                    assert(start + mlen <= ln);
                    assert(line@.subrange(0, start as int) =~= parts.0@);
                    assert(line@.subrange(start as int, start as int + mlen as int) =~= parts.1@);
                    assert(line@.subrange(start as int + mlen as int, line@.len() as int)
                        =~= parts.2@);
                }
                Some(MatchSpan { start, end: start + mlen, kind: MatchKind::Regex })
            },
            None => None,
        },
    }
}

/// Match one line against a compiled pattern.
///
/// The literal test runs first: when `line` contains the raw pattern text,
/// the span is its first occurrence and the matched text is the raw text
/// itself.  Only when the line contains no literal occurrence is the
/// regular expression consulted, and the span is then its leftmost match.
/// When neither path matches, the result is `NoMatch` and the line produces
/// no output.  On a match the line is split at the span into three
/// fragments whose concatenation is exactly `line`, the line number is
/// reported 1-based, and the column is the span's start offset plus one.
pub fn match_line(p: &Pattern, line: &str, line_number: usize) -> (r: MatchResult)
    requires
        line_number < usize::MAX,
        line@.len() < usize::MAX,
    ensures
        match_line_post(r, p.raw_view(), line@, line_number as int),
        r is Matched <==> spec_span(p.raw_view(), line@) is Some,
        r matches MatchResult::Matched(h) ==> h.before@ + h.matched@ + h.after@ == line@,
        contains_pattern(line@, p.raw_view()) ==> (r matches MatchResult::Matched(h)
            && h.matched@ == p.raw_view()),
        !contains_pattern(line@, p.raw_view()) ==> match r {
            MatchResult::Matched(h) => regex_parts(p.raw_view(), line@) == Some(
                (h.before@, h.matched@, h.after@),
            ),
            MatchResult::NoMatch => regex_parts(p.raw_view(), line@) is None,
        },
        r is NoMatch <==> (!contains_pattern(line@, p.raw_view()) && regex_parts(
            p.raw_view(),
            line@,
        ) is None),
{
    proof {
        lemma_first_occurrence(line@, p.raw_view());
    }
    match find_span(p, line) {
        Some(s) => {
            let ln: usize = line.unicode_len();
            let before = line.substring_char(0, s.start).to_owned();
            let matched = line.substring_char(s.start, s.end).to_owned();
            let after = line.substring_char(s.end, ln).to_owned();
            proof {
                assert(line@.subrange(0, s.start as int) + line@.subrange(
                    s.start as int,
                    s.end as int,
                ) + line@.subrange(s.end as int, line@.len() as int) =~= line@);
                if first_occurrence(line@, p.raw_view()) >= 0 {
                    lemma_occurs_at_subrange(
                        line@,
                        p.raw_view(),
                        first_occurrence(line@, p.raw_view()),
                    );
                }
            }
            MatchResult::Matched(
                HighlightedLine {
                    line_number: line_number + 1,
                    column: s.start + 1,
                    before,
                    matched,
                    after,
                },
            )
        },
        None => MatchResult::NoMatch,
    }
}

/// The 0-based indices of the lines of `lines` that match `raw` under the
/// two-step policy, in ascending order.
pub open spec fn matching_indices(raw: Seq<char>, lines: Seq<Seq<char>>) -> Seq<int>
    decreases lines.len(),
{
    if lines.len() == 0 {
        Seq::empty()
    } else if spec_span(raw, lines.last()) is Some {
        matching_indices(raw, lines.drop_last()).push(lines.len() - 1)
    } else {
        matching_indices(raw, lines.drop_last())
    }
}

/// The matching indices are in bounds, strictly ascending, and each one
/// names a line on which the two-step policy finds a span.
pub proof fn lemma_matching_indices(raw: Seq<char>, lines: Seq<Seq<char>>)
    ensures
        forall|k: int| 0 <= k < matching_indices(raw, lines).len() ==> 0 <= #[trigger] matching_indices(
            raw,
            lines,
        )[k] < lines.len(),
        forall|k1: int, k2: int|
            0 <= k1 < k2 < matching_indices(raw, lines).len() ==> matching_indices(raw, lines)[k1]
                < matching_indices(raw, lines)[k2],
        forall|k: int| 0 <= k < matching_indices(raw, lines).len() ==> spec_span(
            raw,
            lines[#[trigger] matching_indices(raw, lines)[k]],
        ) is Some,
    decreases lines.len(),
{
    if lines.len() > 0 {
        lemma_matching_indices(raw, lines.drop_last());
        assert(forall|k: int|
            0 <= k < matching_indices(raw, lines.drop_last()).len() ==> lines.drop_last()[
                #[trigger] matching_indices(raw, lines.drop_last())[k]
            ] == lines[matching_indices(raw, lines.drop_last())[k]]);
    }
}

/// Scan a file's lines in order with one shared pattern.  The result holds
/// exactly the matching lines, in ascending line-number order: its `k`-th
/// entry is the highlighted form of the `k`-th matching line, as
/// `match_line` produces it from that line and its 0-based index.
pub fn match_lines(p: &Pattern, lines: &Vec<String>) -> (r: Vec<HighlightedLine>)
    requires
        forall|t: int| 0 <= t < lines@.len() ==> (#[trigger] lines@[t])@.len() < usize::MAX,
    ensures
        ({
            let idxs = matching_indices(p.raw_view(), lines.deep_view());
            &&& r@.len() == idxs.len()
            &&& forall|k: int|
                0 <= k < idxs.len() ==> match_line_post(
                    MatchResult::Matched(#[trigger] r@[k]),
                    p.raw_view(),
                    lines.deep_view()[idxs[k]],
                    idxs[k],
                )
            &&& forall|k: int| 0 <= k < idxs.len() ==> (#[trigger] r@[k]).line_number == idxs[k] + 1
            &&& forall|k1: int, k2: int|
                0 <= k1 < k2 < idxs.len() ==> r@[k1].line_number < r@[k2].line_number
        }),
{
    let ghost raw = p.raw_view();
    let ghost all = lines.deep_view();
    let mut out: Vec<HighlightedLine> = Vec::new();
    let mut i: usize = 0;
    proof {
        assert(all.take(0) =~= Seq::<Seq<char>>::empty());
    }
    while i < lines.len()
        invariant
            i <= lines@.len(),
            all == lines.deep_view(),
            all.len() == lines@.len(),
            raw == p.raw_view(),
            forall|t: int| 0 <= t < lines@.len() ==> (#[trigger] lines@[t])@.len() < usize::MAX,
            forall|t: int| 0 <= t < lines@.len() ==> all[t] == (#[trigger] lines@[t])@,
            ({
                let idxs = matching_indices(raw, all.take(i as int));
                &&& out@.len() == idxs.len()
                &&& forall|k: int|
                    0 <= k < idxs.len() ==> match_line_post(
                        MatchResult::Matched(#[trigger] out@[k]),
                        raw,
                        all[idxs[k]],
                        idxs[k],
                    )
                &&& forall|k: int| 0 <= k < idxs.len() ==> (#[trigger] out@[k]).line_number == idxs[k]
                    + 1
            }),
        decreases lines@.len() - i,
    {
        let ghost prefix = all.take(i as int);
        let ghost next_prefix = all.take(i as int + 1);
        proof {
            assert(next_prefix.drop_last() =~= prefix);
            assert(next_prefix.last() == all[i as int]);
            lemma_matching_indices(raw, prefix);
        }
        let r = match_line(p, lines[i].as_str(), i);
        match r {
            MatchResult::Matched(h) => {
                proof {
                    assert(spec_span(raw, all[i as int]) is Some);
                    assert(matching_indices(raw, next_prefix) == matching_indices(
                        raw,
                        prefix,
                    ).push(i as int));
                }
                out.push(h);
            },
            MatchResult::NoMatch => {
                proof {
                    assert(spec_span(raw, all[i as int]) is None);
                    assert(matching_indices(raw, next_prefix) == matching_indices(raw, prefix));
                }
            },
        }
        i += 1;
    }
    proof {
        assert(all.take(i as int) =~= all);
        lemma_matching_indices(raw, all);
    }
    out
}

/// Two patterns compiled from the same raw text match every line
/// identically: whatever results satisfy `match_line`'s contract for the
/// same raw text, line and line index have the same content.  Compiling a
/// raw pattern string twice therefore yields identical matching behavior.
pub proof fn lemma_match_deterministic(
    p1: &Pattern,
    p2: &Pattern,
    line: Seq<char>,
    line_number: int,
    r1: MatchResult,
    r2: MatchResult,
)
    requires
        p1.raw_view() == p2.raw_view(),
        match_line_post(r1, p1.raw_view(), line, line_number),
        match_line_post(r2, p2.raw_view(), line, line_number),
    ensures
        result_view(r1) == result_view(r2),
{
}

} // verus!
