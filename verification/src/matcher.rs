//! The matcher: decides whether a query occurs in a text and, where it
//! does, how good the occurrence is.

use vstd::prelude::*;
use crate::config::ScoreConfig;
use crate::scan::{backward_pass, forward_pass};
use crate::score::{calculate_score, span_score};
use crate::subsequence::{
    earliest_end, earliest_end_is_unique, first_index_is_unique, first_index_of,
    is_earliest_end, is_first_index_of, is_subsequence, latest_start, latest_start_is_unique,
    occurrence_needs_room, occurrence_starts_at_first_index, subsequence_has_a_span,
};

verus! {

/// The longest text the standard profile can score without leaving the
/// range of the score.
pub const MAX_TEXT_LEN: usize = 59_652_323;

/// How a match attempt ended.
#[derive(Clone, Copy, Debug, PartialEq, Eq, Structural)]
pub enum MatchOutcome {
    /// The query was empty: there was nothing to look for.
    EmptyQuery,
    /// The query is no subsequence of the text.
    NoMatch,
    /// The query occurs in the text.
    Matched,
}

/// The result of a match attempt. `start` and `end` bound the
/// earliest-ending span of the text that holds the query, `end` exclusive,
/// both counted in characters; `score` rates the tightest occurrence that
/// ends there. Unless the outcome is `Matched`, all three are zero.
#[derive(Clone, Copy, Debug, PartialEq, Eq, Structural)]
pub struct MatchResult {
    pub outcome: MatchOutcome,
    pub start: usize,
    pub end: usize,
    pub score: i32,
}

/// A match result over the integers.
pub struct MatchModel {
    pub outcome: MatchOutcome,
    pub start: int,
    pub end: int,
    pub score: int,
}

impl View for MatchResult {
    type V = MatchModel;

    open spec fn view(&self) -> MatchModel {
        MatchModel {
            outcome: self.outcome,
            start: self.start as int,
            end: self.end as int,
            score: self.score as int,
        }
    }
}

/// The result for an empty query, and for a query that does not occur.
pub open spec fn nothing(outcome: MatchOutcome) -> MatchModel {
    MatchModel { outcome, start: 0, end: 0, score: 0 }
}

/// What matching `query` against `text` yields under the profile `cfg`.
///
/// An empty query yields `EmptyQuery`, a query that is no subsequence of
/// the text `NoMatch`, both with zeros. Otherwise the span runs from the
/// first position of the query's first character to the earliest end of an
/// occurrence, and the score is that of the span from the latest start of
/// an occurrence to that same end.
pub open spec fn match_model(cfg: ScoreConfig, text: Seq<char>, query: Seq<char>) -> MatchModel {
    if query.len() == 0 {
        nothing(MatchOutcome::EmptyQuery)
    } else if !is_subsequence(query, text) {
        nothing(MatchOutcome::NoMatch)
    } else {
        let end = earliest_end(query, text);
        MatchModel {
            outcome: MatchOutcome::Matched,
            start: first_index_of(text, query[0]),
            end,
            score: span_score(cfg, text, query, latest_start(query, text, end), end),
        }
    }
}

/// The characters of `text`, so that each can be reached by its index.
pub fn chars_of(text: &str) -> (chars: Vec<char>)
    ensures
        chars@ == text@,
{
    let mut chars: Vec<char> = Vec::new();
    for c in it: text.chars()
        invariant
            it.seq() == text@,
            chars@ == text@.take(it.index()),
    {
        chars.push(c);
    }
    chars
}

/// Matches `query` against `text` under the profile `cfg`.
///
/// An empty query is answered with `EmptyQuery`, whatever the text; a query
/// that is no subsequence of the text with `NoMatch`; every other with
/// `Matched`, the span and the score.
///
/// The text must be short enough for the score to fit: its length times
/// the step limit of the profile must not exceed `i32::MAX`.
pub fn fuzzy_match_with(cfg: &ScoreConfig, text: &[char], query: &[char]) -> (result:
    MatchResult)
    requires
        cfg.wf(),
        text@.len() * cfg.step_limit() <= i32::MAX,
    ensures
        result@ == match_model(*cfg, text@, query@),
        query@.len() == 0 ==> result@ == nothing(MatchOutcome::EmptyQuery),
        query@.len() > 0 && !is_subsequence(query@, text@) ==> result@ == nothing(
            MatchOutcome::NoMatch,
        ),
        query@.len() > 0 && is_subsequence(query@, text@) ==> {
            &&& result.outcome == MatchOutcome::Matched
            &&& is_first_index_of(text@, query@[0], result.start as int)
            &&& is_earliest_end(query@, text@, result.end as int)
            &&& result.start + query@.len() <= result.end <= text@.len()
            &&& result.score == span_score(
                *cfg,
                text@,
                query@,
                latest_start(query@, text@, result.end as int),
                result.end as int,
            )
        },
{
    if query.len() == 0 {
        return MatchResult { outcome: MatchOutcome::EmptyQuery, start: 0, end: 0, score: 0 };
    }
    match forward_pass(text, query) {
        None => MatchResult { outcome: MatchOutcome::NoMatch, start: 0, end: 0, score: 0 },
        Some((start, end)) => {
            proof {
                occurrence_starts_at_first_index(query@, text@, end as int, start as int);
                occurrence_needs_room(query@, text@, start as int, end as int);
            }
            let tightened = backward_pass(text, query, start, end);
            proof {
                let span = end - tightened;
                let whole = text@.len() as int;
                let limit = cfg.step_limit();
                assert(span * limit <= whole * limit) by (nonlinear_arith)
                    requires
                        0 <= span <= whole,
                        0 <= limit,
                ;
                first_index_is_unique(text@, query@[0], start as int);
                earliest_end_is_unique(query@, text@, end as int);
                latest_start_is_unique(query@, text@, end as int, tightened as int);
            }
            let score = calculate_score(cfg, text, query, tightened, end);
            MatchResult { outcome: MatchOutcome::Matched, start, end, score }
        },
    }
}

/// Matches `query` against `text` under the standard profile.
///
/// An empty query is answered with `EmptyQuery`, whatever the text; a query
/// that is no subsequence of the text with `NoMatch`; every other with
/// `Matched`, the span and the score. Characters are compared as they are:
/// the caller brings text and query to one case beforehand.
///
/// The text may hold at most `MAX_TEXT_LEN` characters, so that the score
/// fits.
pub fn fuzzy_match(text: &str, query: &[char]) -> (result: MatchResult)
    requires
        text@.len() <= MAX_TEXT_LEN,
    ensures
        result@ == match_model(ScoreConfig::standard(), text@, query@),
        query@.len() == 0 ==> result@ == nothing(MatchOutcome::EmptyQuery),
        query@.len() > 0 && !is_subsequence(query@, text@) ==> result@ == nothing(
            MatchOutcome::NoMatch,
        ),
        query@.len() > 0 && is_subsequence(query@, text@) ==> {
            &&& result.outcome == MatchOutcome::Matched
            &&& is_first_index_of(text@, query@[0], result.start as int)
            &&& is_earliest_end(query@, text@, result.end as int)
            &&& result.start + query@.len() <= result.end <= text@.len()
            &&& result.score == span_score(
                ScoreConfig::standard(),
                text@,
                query@,
                latest_start(query@, text@, result.end as int),
                result.end as int,
            )
        },
{
    let cfg = ScoreConfig::standard();
    let chars = chars_of(text);
    fuzzy_match_with(&cfg, chars.as_slice(), query)
}

/// Matching is a function of the characters alone: two attempts on equal
/// texts and equal queries, under one profile, give equal results.
pub proof fn matching_is_repeatable(
    cfg: ScoreConfig,
    text: Seq<char>,
    query: Seq<char>,
    text_again: Seq<char>,
    query_again: Seq<char>,
    first: MatchResult,
    second: MatchResult,
)
    requires
        text =~= text_again,
        query =~= query_again,
        first@ == match_model(cfg, text, query),
        second@ == match_model(cfg, text_again, query_again),
    ensures
        first == second,
{
}

/// A match spans at least the query and lies in the text; anything else is
/// all zeros.
pub proof fn match_model_is_well_formed(cfg: ScoreConfig, text: Seq<char>, query: Seq<char>)
    ensures
        ({
            let m = match_model(cfg, text, query);
            if m.outcome == MatchOutcome::Matched {
                &&& query.len() > 0
                &&& is_subsequence(query, text)
                &&& 0 <= m.start
                &&& m.start + query.len() <= m.end <= text.len()
                &&& m.start <= latest_start(query, text, m.end) < m.end
            } else {
                m.start == 0 && m.end == 0 && m.score == 0
            }
        }),
{
    let m = match_model(cfg, text, query);
    if m.outcome == MatchOutcome::Matched {
        subsequence_has_a_span(query, text);
    }
}

} // verus!
