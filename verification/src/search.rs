//! Search: every candidate is matched against the query, and the best few
//! are handed back.

use vstd::prelude::*;
use crate::config::ScoreConfig;
use crate::matcher::{fuzzy_match, match_model, MAX_TEXT_LEN};
use crate::ranking::{is_top_of, top_ranked, SearchResult};

verus! {

/// The score of each candidate for `query` under the standard profile. A
/// candidate in which the query does not occur has the score zero, as has
/// every candidate where the query is empty.
pub open spec fn candidate_scores(candidates: Seq<String>, query: Seq<char>) -> Seq<i32> {
    Seq::new(
        candidates.len(),
        |i: int| match_model(ScoreConfig::standard(), candidates[i]@, query).score as i32,
    )
}

/// Matches `query` against every candidate and ranks the candidates by
/// their scores: the best `limit` come back, best first, or all of them
/// where they are fewer. Of two candidates with one score the later one
/// stands first.
///
/// No candidate may hold more than `MAX_TEXT_LEN` characters.
pub fn search(candidates: &Vec<String>, query: &[char], limit: usize) -> (ranking: Vec<
    SearchResult,
>)
    requires
        forall|i: int| 0 <= i < candidates@.len() ==> (#[trigger] candidates@[i])@.len() <= MAX_TEXT_LEN,
    ensures
        is_top_of(
            ranking@,
            candidate_scores(candidates@, query@),
            candidates@.len() as int,
            limit as int,
        ),
{
    let mut scores: Vec<i32> = Vec::new();
    let mut index: usize = 0;
    while index < candidates.len()
        invariant
            index <= candidates@.len(),
            scores@.len() == index,
            forall|i: int|
                0 <= i < candidates@.len() ==> (#[trigger] candidates@[i])@.len() <= MAX_TEXT_LEN,
            forall|i: int|
                0 <= i < index ==> #[trigger] scores@[i] == candidate_scores(
                    candidates@,
                    query@,
                )[i],
        decreases candidates@.len() - index,
    {
        let result = fuzzy_match(candidates[index].as_str(), query);
        scores.push(result.score);
        index = index + 1;
    }
    assert(scores@ =~= candidate_scores(candidates@, query@));
    top_ranked(&scores, limit)
}

} // verus!
