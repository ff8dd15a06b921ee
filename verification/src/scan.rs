//! The two scans: forward for the earliest span that holds the query,
//! backward for the latest start within it.

use vstd::prelude::*;
use crate::subsequence::{
    is_earliest_end, is_first_index_of, is_latest_start, is_subsequence, occurrence_widens,
    occurs_in, reverse_scan_cursor, reverse_scan_decides_occurrence, scan_cursor,
    scan_decides_occurrence,
};

verus! {

/// Finds the earliest-ending span of `text` that holds `query` as an
/// in-order subsequence, in one pass from the left.
///
/// The span starts at the first position of the query's first character
/// and ends where the query first becomes a subsequence of the text read so
/// far. There is none exactly if the query is no subsequence of the text;
/// for an empty query there is none either.
pub fn forward_pass(text: &[char], query: &[char]) -> (span: Option<(usize, usize)>)
    ensures
        query@.len() == 0 ==> span is None,
        query@.len() > 0 ==> (span is None <==> !is_subsequence(query@, text@)),
        span matches Some((start, end)) ==> {
            &&& is_first_index_of(text@, query@[0], start as int)
            &&& is_earliest_end(query@, text@, end as int)
        },
{
    if query.len() == 0 {
        return None;
    }
    let mut query_index: usize = 0;
    let mut start_index: Option<usize> = None;
    let mut index: usize = 0;

    while index < text.len()
        invariant
            index <= text@.len(),
            query_index < query@.len(),
            query_index == scan_cursor(query@, text@, index as int),
            forall|upto: int|
                0 <= upto <= index ==> #[trigger] scan_cursor(query@, text@, upto) < query@.len(),
            match start_index {
                None => query_index == 0 && forall|i: int|
                    0 <= i < index ==> text@[i] != query@[0],
                Some(start) => is_first_index_of(text@, query@[0], start as int),
            },
        decreases text@.len() - index,
    {
        if text[index] == query[query_index] {
            if start_index.is_none() {
                start_index = Some(index);
            }
            query_index = query_index + 1;
            if query_index == query.len() {
                let end = index + 1;
                proof {
                    scan_decides_occurrence(query@, text@, end as int);
                    assert forall|shorter: int| 0 <= shorter < end implies !occurs_in(
                        query@,
                        text@,
                        0,
                        shorter,
                    ) by {
                        scan_decides_occurrence(query@, text@, shorter);
                    }
                    occurrence_widens(query@, text@, 0, end as int, 0, text@.len() as int);
                }
                return Some((start_index.unwrap(), end));
            }
        }
        index = index + 1;
    }
    proof {
        scan_decides_occurrence(query@, text@, text@.len() as int);
    }
    None
}

/// Tightens the span `text[start..end)` from the left, in one pass from the
/// right: where `query` occurs in the span, the result is the latest
/// position from which it still occurs before `end`. Where it does not
/// occur, or is empty, `start` comes back.
pub fn backward_pass(text: &[char], query: &[char], start: usize, end: usize) -> (tightened:
    usize)
    requires
        start <= end <= text@.len(),
    ensures
        start <= tightened <= end,
        query@.len() > 0 && occurs_in(query@, text@, start as int, end as int) ==> is_latest_start(
            query@,
            text@,
            end as int,
            tightened as int,
        ),
        query@.len() == 0 || !occurs_in(query@, text@, start as int, end as int) ==> tightened
            == start,
{
    if query.len() == 0 {
        return start;
    }
    let mut query_index: usize = query.len() - 1;
    let mut index: usize = end;

    while index > start
        invariant
            start <= index <= end <= text@.len(),
            query_index < query@.len(),
            reverse_scan_cursor(query@, text@, index as int, end as int) == query@.len() - 1
                - query_index,
            forall|from: int|
                index <= from <= end ==> #[trigger] reverse_scan_cursor(
                    query@,
                    text@,
                    from,
                    end as int,
                ) < query@.len(),
        decreases index - start,
    {
        index = index - 1;
        if text[index] == query[query_index] {
            if query_index == 0 {
                proof {
                    reverse_scan_decides_occurrence(query@, text@, index as int, end as int);
                    assert forall|later: int| index < later <= end implies !occurs_in(
                        query@,
                        text@,
                        later,
                        end as int,
                    ) by {
                        reverse_scan_decides_occurrence(query@, text@, later, end as int);
                    }
                    occurrence_widens(
                        query@,
                        text@,
                        index as int,
                        end as int,
                        start as int,
                        end as int,
                    );
                }
                return index;
            }
            query_index = query_index - 1;
        }
    }
    proof {
        reverse_scan_decides_occurrence(query@, text@, start as int, end as int);
    }
    start
}

} // verus!
