//! Ranking: of many scored candidates, the best few, best first.

use vstd::prelude::*;

verus! {

/// A candidate, named by its position in the list of candidates, with the
/// score it was given.
#[derive(Clone, Copy, Debug, PartialEq, Eq, Structural)]
pub struct SearchResult {
    pub candidate: usize,
    pub score: i32,
}

/// `a` stands before `b` in a ranking: it has the higher score, or the
/// same score and the later place in the list of candidates.
pub open spec fn ranks_before(a: SearchResult, b: SearchResult) -> bool {
    a.score > b.score || (a.score == b.score && a.candidate > b.candidate)
}

/// The candidate at place `i` with its score.
pub open spec fn entry(scores: Seq<i32>, i: int) -> SearchResult {
    SearchResult { candidate: i as usize, score: scores[i] }
}

/// Each result stands before all that follow it.
pub open spec fn is_descending(ranking: Seq<SearchResult>) -> bool {
    forall|j: int, k: int|
        0 <= j < k < ranking.len() ==> ranks_before(#[trigger] ranking[j], #[trigger] ranking[k])
}

/// `ranking` holds the best `limit` of the first `upto` candidates, best
/// first, or all of them where they are fewer: it has that many results,
/// each is a candidate with its score, each stands before all that follow
/// it, and a candidate that is left out stands behind all that are in.
pub open spec fn is_top_of(
    ranking: Seq<SearchResult>,
    scores: Seq<i32>,
    upto: int,
    limit: int,
) -> bool {
    &&& ranking.len() == if limit <= upto {
        limit
    } else {
        upto
    }
    &&& forall|k: int|
        0 <= k < ranking.len() ==> {
            &&& 0 <= (#[trigger] ranking[k]).candidate < upto
            &&& ranking[k] == entry(scores, ranking[k].candidate as int)
        }
    &&& is_descending(ranking)
    &&& forall|i: int|
        0 <= i < upto ==> {
            ||| ranking.contains(#[trigger] entry(scores, i))
            ||| ranking.len() == limit && stands_behind_all(ranking, entry(scores, i))
        }
}

/// Every result of `ranking` stands before `other`.
pub open spec fn stands_behind_all(ranking: Seq<SearchResult>, other: SearchResult) -> bool {
    forall|k: int| 0 <= k < ranking.len() ==> ranks_before(#[trigger] ranking[k], other)
}

/// Whether `a` stands before `b` in a ranking.
pub fn comes_before(a: &SearchResult, b: &SearchResult) -> (before: bool)
    ensures
        before == ranks_before(*a, *b),
{
    a.score > b.score || (a.score == b.score && a.candidate > b.candidate)
}

/// Of two different candidates one stands before the other, and standing
/// before carries over a third.
pub proof fn ranking_is_a_strict_order(a: SearchResult, b: SearchResult, c: SearchResult)
    ensures
        !ranks_before(a, a),
        ranks_before(a, b) ==> !ranks_before(b, a),
        ranks_before(a, b) && ranks_before(b, c) ==> ranks_before(a, c),
        a.candidate != b.candidate ==> ranks_before(a, b) || ranks_before(b, a),
{
}

/// Picks the best `limit` candidates, best first; all of them, where they
/// are fewer. `scores[i]` is the score of candidate `i`.
pub fn top_ranked(scores: &Vec<i32>, limit: usize) -> (ranking: Vec<SearchResult>)
    ensures
        is_top_of(ranking@, scores@, scores@.len() as int, limit as int),
{
    let mut ranking: Vec<SearchResult> = Vec::new();
    let mut index: usize = 0;
    while index < scores.len()
        invariant
            index <= scores@.len(),
            is_top_of(ranking@, scores@, index as int, limit as int),
        decreases scores@.len() - index,
    {
        let item = SearchResult { candidate: index, score: scores[index] };
        let ghost before = ranking@;
        let mut at: usize = ranking.len();
        while at > 0 && comes_before(&item, &ranking[at - 1])
            invariant
                at <= ranking@.len(),
                ranking@ == before,
                forall|k: int| at <= k < ranking@.len() ==> ranks_before(item, #[trigger] ranking@[k]),
            decreases at,
        {
            at = at - 1;
        }
        proof {
            assert forall|k: int| 0 <= k < at implies ranks_before(#[trigger] before[k], item) by {
                assert(ranks_before(before[at - 1], item));
                if k < at - 1 {
                    assert(ranks_before(before[k], before[at - 1]));
                }
            }
        }
        if at < limit {
            ranking.insert(at, item);
            let ghost grown = ranking@;
            proof {
                assert forall|k: int| 0 <= k < before.len() implies grown.contains(
                    #[trigger] before[k],
                ) by {
                    if k < at {
                        assert(grown[k] == before[k]);
                    } else {
                        assert(grown[k + 1] == before[k]);
                    }
                }
                assert(grown[at as int] == item);
                assert(is_descending(grown)) by {
                    assert forall|j: int, k: int| 0 <= j < k < grown.len() implies ranks_before(
                        #[trigger] grown[j],
                        #[trigger] grown[k],
                    ) by {
                        let from = if j < at { before[j] } else if j == at { item } else { before[j - 1] };
                        let to = if k < at { before[k] } else if k == at { item } else { before[k - 1] };
                        assert(grown[j] == from && grown[k] == to);
                    }
                }
                assert forall|i: int| 0 <= i < index + 1 implies {
                    ||| grown.contains(#[trigger] entry(scores@, i))
                    ||| grown.len() == limit + 1 && stands_behind_all(grown, entry(scores@, i))
                } by {
                    let e = entry(scores@, i);
                    if i < index && !before.contains(e) {
                        assert(ranks_before(item, before[at as int]));
                        assert forall|k: int| 0 <= k < grown.len() implies ranks_before(
                            #[trigger] grown[k],
                            e,
                        ) by {
                            if k > at {
                                assert(grown[k] == before[k - 1]);
                            }
                        }
                    }
                }
            }
            if ranking.len() > limit {
                ranking.pop();
                proof {
                    let kept = ranking@;
                    let last = grown.last();
                    assert forall|k: int| 0 <= k < kept.len() implies ranks_before(
                        #[trigger] kept[k],
                        last,
                    ) by {
                        assert(kept[k] == grown[k]);
                    }
                    assert forall|i: int| 0 <= i < index + 1 implies {
                        ||| kept.contains(#[trigger] entry(scores@, i))
                        ||| kept.len() == limit && stands_behind_all(kept, entry(scores@, i))
                    } by {
                        let e = entry(scores@, i);
                        if grown.contains(e) {
                            let k = choose|k: int| 0 <= k < grown.len() && grown[k] == e;
                            if k < kept.len() {
                                assert(kept[k] == e);
                            }
                        } else {
                            assert forall|k: int| 0 <= k < kept.len() implies ranks_before(
                                #[trigger] kept[k],
                                e,
                            ) by {
                                assert(kept[k] == grown[k]);
                            }
                        }
                    }
                    assert(is_descending(kept)) by {
                        assert forall|j: int, k: int| 0 <= j < k < kept.len() implies ranks_before(
                            #[trigger] kept[j],
                            #[trigger] kept[k],
                        ) by {
                            assert(kept[j] == grown[j] && kept[k] == grown[k]);
                        }
                    }
                }
            }
        }
        index = index + 1;
    }
    ranking
}

} // verus!
