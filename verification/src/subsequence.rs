//! Subsequences: what it means for a query to occur in a text, and why the
//! two greedy scans find the earliest end and the latest start of an
//! occurrence.

use vstd::prelude::*;

verus! {

/// `positions` places the characters of `query`, in order, on equal
/// characters of `text` within `text[lo..hi)`.
pub open spec fn is_embedding(
    query: Seq<char>,
    text: Seq<char>,
    lo: int,
    hi: int,
    positions: Seq<int>,
) -> bool {
    &&& positions.len() == query.len()
    &&& forall|k: int|
        0 <= k < positions.len() ==> {
            &&& lo <= #[trigger] positions[k] < hi
            &&& 0 <= positions[k] < text.len()
            &&& text[positions[k]] == query[k]
        }
    &&& forall|j: int, k: int|
        0 <= j < k < positions.len() ==> #[trigger] positions[j] < #[trigger] positions[k]
}

/// `query` occurs in `text[lo..hi)` as an in-order subsequence.
pub open spec fn occurs_in(query: Seq<char>, text: Seq<char>, lo: int, hi: int) -> bool {
    exists|positions: Seq<int>| is_embedding(query, text, lo, hi, positions)
}

/// Some placement of `query` in `text[lo..hi)`, where it occurs there.
pub open spec fn a_placement(query: Seq<char>, text: Seq<char>, lo: int, hi: int) -> Seq<int> {
    choose|positions: Seq<int>| is_embedding(query, text, lo, hi, positions)
}

/// `query` is an in-order subsequence of `text`: its characters appear in
/// `text` in the same relative order, not necessarily next to each other.
pub open spec fn is_subsequence(query: Seq<char>, text: Seq<char>) -> bool {
    occurs_in(query, text, 0, text.len() as int)
}

/// `at` is the first position of the character `c` in `text`.
pub open spec fn is_first_index_of(text: Seq<char>, c: char, at: int) -> bool {
    &&& 0 <= at < text.len()
    &&& text[at] == c
    &&& forall|i: int| 0 <= i < at ==> text[i] != c
}

/// `end` is where the earliest-ending occurrence of `query` in `text`
/// ends: `query` occurs in `text[0..end)`, and in no shorter prefix.
pub open spec fn is_earliest_end(query: Seq<char>, text: Seq<char>, end: int) -> bool {
    &&& 0 <= end <= text.len()
    &&& occurs_in(query, text, 0, end)
    &&& forall|shorter: int| 0 <= shorter < end ==> !occurs_in(query, text, 0, shorter)
}

/// `start` is where the latest-starting occurrence of `query` in
/// `text[..end)` starts: `query` occurs in `text[start..end)`, and in no
/// shorter suffix of `text[..end)`.
pub open spec fn is_latest_start(
    query: Seq<char>,
    text: Seq<char>,
    end: int,
    start: int,
) -> bool {
    &&& 0 <= start <= end <= text.len()
    &&& occurs_in(query, text, start, end)
    &&& forall|later: int| start < later <= end ==> !occurs_in(query, text, later, end)
}

/// The first position of `c` in `text`, where there is one.
pub open spec fn first_index_of(text: Seq<char>, c: char) -> int {
    choose|at: int| is_first_index_of(text, c, at)
}

/// The end of the earliest-ending occurrence of `query` in `text`, where
/// there is one.
pub open spec fn earliest_end(query: Seq<char>, text: Seq<char>) -> int {
    choose|end: int| is_earliest_end(query, text, end)
}

/// The start of the latest-starting occurrence of `query` in
/// `text[..end)`, where there is one.
pub open spec fn latest_start(query: Seq<char>, text: Seq<char>, end: int) -> int {
    choose|start: int| is_latest_start(query, text, end, start)
}

/// How many characters of `query` the left-to-right scan has matched once
/// it has read `text[0..upto)`: it takes every character that equals the
/// one it waits for.
pub open spec fn scan_cursor(query: Seq<char>, text: Seq<char>, upto: int) -> int
    decreases upto,
{
    if upto <= 0 {
        0
    } else {
        let before = scan_cursor(query, text, upto - 1);
        if before < query.len() && text[upto - 1] == query[before] {
            before + 1
        } else {
            before
        }
    }
}

/// How many characters of `query`, counted from its end, the right-to-left
/// scan has matched once it has read `text[from..end)` backwards.
pub open spec fn reverse_scan_cursor(
    query: Seq<char>,
    text: Seq<char>,
    from: int,
    end: int,
) -> int
    decreases end - from,
{
    if from >= end {
        0
    } else {
        let before = reverse_scan_cursor(query, text, from + 1, end);
        if before < query.len() && text[from] == query[query.len() - 1 - before] {
            before + 1
        } else {
            before
        }
    }
}

/// The left-to-right scan never counts more than it has read, nor more
/// than the query holds, and what it has matched does occur in what it has
/// read.
pub proof fn scan_finds_an_occurrence(query: Seq<char>, text: Seq<char>, upto: int)
    requires
        0 <= upto <= text.len(),
    ensures
        0 <= scan_cursor(query, text, upto) <= upto,
        scan_cursor(query, text, upto) <= query.len(),
        occurs_in(query.take(scan_cursor(query, text, upto)), text, 0, upto),
    decreases upto,
{
    if upto == 0 {
        assert(is_embedding(query.take(0), text, 0, 0, Seq::<int>::empty()));
    } else {
        scan_finds_an_occurrence(query, text, upto - 1);
        let before = scan_cursor(query, text, upto - 1);
        let placed = a_placement(query.take(before), text, 0, upto - 1);
        if before < query.len() && text[upto - 1] == query[before] {
            let extended = placed.push(upto - 1);
            assert(is_embedding(query.take(before + 1), text, 0, upto, extended));
        } else {
            assert(is_embedding(query.take(before), text, 0, upto, placed));
        }
    }
}

/// No occurrence of a prefix of the query in `text[0..upto)` is longer
/// than what the left-to-right scan has matched there.
pub proof fn scan_matches_the_most(
    query: Seq<char>,
    text: Seq<char>,
    upto: int,
    len: int,
    positions: Seq<int>,
)
    requires
        0 <= upto <= text.len(),
        0 <= len <= query.len(),
        is_embedding(query.take(len), text, 0, upto, positions),
    ensures
        len <= scan_cursor(query, text, upto),
    decreases upto,
{
    scan_finds_an_occurrence(query, text, upto);
    if len > 0 {
        let last = positions[len - 1];
        if upto == 0 {
            assert(false);
        } else {
            scan_finds_an_occurrence(query, text, upto - 1);
            let before = scan_cursor(query, text, upto - 1);
            if last < upto - 1 {
                assert forall|k: int| 0 <= k < positions.len() implies #[trigger] positions[k]
                    < upto - 1 by {
                    if k < len - 1 {
                        assert(positions[k] < positions[len - 1]);
                    }
                }
                assert(is_embedding(query.take(len), text, 0, upto - 1, positions));
                scan_matches_the_most(query, text, upto - 1, len, positions);
            } else {
                let shorter = positions.drop_last();
                assert forall|k: int| 0 <= k < shorter.len() implies #[trigger] shorter[k] < upto
                    - 1 by {
                    assert(positions[k] < positions[len - 1]);
                }
                assert(is_embedding(query.take(len - 1), text, 0, upto - 1, shorter));
                scan_matches_the_most(query, text, upto - 1, len - 1, shorter);
                assert(query.take(len)[len - 1] == query[len - 1]);
            }
        }
    }
}

/// The query occurs in `text[0..upto)` exactly if the left-to-right scan
/// has matched all of it there.
pub proof fn scan_decides_occurrence(query: Seq<char>, text: Seq<char>, upto: int)
    requires
        0 <= upto <= text.len(),
    ensures
        occurs_in(query, text, 0, upto) <==> scan_cursor(query, text, upto) == query.len(),
{
    scan_finds_an_occurrence(query, text, upto);
    assert(query.take(query.len() as int) =~= query);
    if occurs_in(query, text, 0, upto) {
        let positions = a_placement(query, text, 0, upto);
        scan_matches_the_most(query, text, upto, query.len() as int, positions);
    }
}

/// The right-to-left scan never counts more than it has read, nor more
/// than the query holds, and what it has matched does occur in what it has
/// read.
pub proof fn reverse_scan_finds_an_occurrence(
    query: Seq<char>,
    text: Seq<char>,
    from: int,
    end: int,
)
    requires
        0 <= from <= end <= text.len(),
    ensures
        0 <= reverse_scan_cursor(query, text, from, end) <= end - from,
        reverse_scan_cursor(query, text, from, end) <= query.len(),
        occurs_in(
            query.skip(query.len() - reverse_scan_cursor(query, text, from, end)),
            text,
            from,
            end,
        ),
    decreases end - from,
{
    let total = query.len() as int;
    if from == end {
        assert(is_embedding(query.skip(total), text, from, end, Seq::<int>::empty()));
    } else {
        reverse_scan_finds_an_occurrence(query, text, from + 1, end);
        let before = reverse_scan_cursor(query, text, from + 1, end);
        let placed = a_placement(query.skip(total - before), text, from + 1, end);
        if before < total && text[from] == query[total - 1 - before] {
            let extended = seq![from] + placed;
            assert(is_embedding(query.skip(total - before - 1), text, from, end, extended)) by {
                assert forall|k: int| 0 <= k < extended.len() implies {
                    &&& from <= #[trigger] extended[k] < end
                    &&& 0 <= extended[k] < text.len()
                    &&& text[extended[k]] == query.skip(total - before - 1)[k]
                } by {
                    if k > 0 {
                        assert(extended[k] == placed[k - 1]);
                        assert(query.skip(total - before)[k - 1] == query.skip(total - before - 1)[k]);
                    }
                }
                assert forall|j: int, k: int| 0 <= j < k < extended.len() implies
                    #[trigger] extended[j] < #[trigger] extended[k] by {
                    assert(extended[k] == placed[k - 1]);
                    if j > 0 {
                        assert(extended[j] == placed[j - 1]);
                    }
                }
            }
        } else {
            assert(is_embedding(query.skip(total - before), text, from, end, placed));
        }
    }
}

/// No occurrence of a suffix of the query in `text[from..end)` is longer
/// than what the right-to-left scan has matched there.
pub proof fn reverse_scan_matches_the_most(
    query: Seq<char>,
    text: Seq<char>,
    from: int,
    end: int,
    len: int,
    positions: Seq<int>,
)
    requires
        0 <= from <= end <= text.len(),
        0 <= len <= query.len(),
        is_embedding(query.skip(query.len() - len), text, from, end, positions),
    ensures
        len <= reverse_scan_cursor(query, text, from, end),
    decreases end - from,
{
    let total = query.len() as int;
    reverse_scan_finds_an_occurrence(query, text, from, end);
    if len > 0 {
        let first = positions[0];
        if from == end {
            assert(false);
        } else {
            reverse_scan_finds_an_occurrence(query, text, from + 1, end);
            let before = reverse_scan_cursor(query, text, from + 1, end);
            if first > from {
                assert forall|k: int| 0 <= k < positions.len() implies from + 1
                    <= #[trigger] positions[k] by {
                    if k > 0 {
                        assert(positions[0] < positions[k]);
                    }
                }
                assert(is_embedding(query.skip(total - len), text, from + 1, end, positions));
                reverse_scan_matches_the_most(query, text, from + 1, end, len, positions);
            } else {
                let shorter = positions.drop_first();
                assert forall|k: int| 0 <= k < shorter.len() implies {
                    &&& from + 1 <= #[trigger] shorter[k] < end
                    &&& 0 <= shorter[k] < text.len()
                    &&& text[shorter[k]] == query.skip(total - len + 1)[k]
                } by {
                    assert(shorter[k] == positions[k + 1]);
                    assert(positions[0] < positions[k + 1]);
                    assert(query.skip(total - len)[k + 1] == query.skip(total - len + 1)[k]);
                }
                assert forall|j: int, k: int| 0 <= j < k < shorter.len() implies
                    #[trigger] shorter[j] < #[trigger] shorter[k] by {
                    assert(shorter[j] == positions[j + 1]);
                    assert(shorter[k] == positions[k + 1]);
                }
                assert(is_embedding(query.skip(total - len + 1), text, from + 1, end, shorter));
                reverse_scan_matches_the_most(query, text, from + 1, end, len - 1, shorter);
                assert(query.skip(total - len)[0] == query[total - len]);
            }
        }
    }
}

/// The query occurs in `text[from..end)` exactly if the right-to-left scan
/// has matched all of it there.
pub proof fn reverse_scan_decides_occurrence(
    query: Seq<char>,
    text: Seq<char>,
    from: int,
    end: int,
)
    requires
        0 <= from <= end <= text.len(),
    ensures
        occurs_in(query, text, from, end) <==> reverse_scan_cursor(query, text, from, end)
            == query.len(),
{
    reverse_scan_finds_an_occurrence(query, text, from, end);
    assert(query.skip(0) =~= query);
    if occurs_in(query, text, from, end) {
        let positions = a_placement(query, text, from, end);
        reverse_scan_matches_the_most(query, text, from, end, query.len() as int, positions);
    }
}

/// An occurrence within a window is an occurrence within every wider
/// window.
pub proof fn occurrence_widens(
    query: Seq<char>,
    text: Seq<char>,
    lo: int,
    hi: int,
    wider_lo: int,
    wider_hi: int,
)
    requires
        occurs_in(query, text, lo, hi),
        wider_lo <= lo,
        hi <= wider_hi,
    ensures
        occurs_in(query, text, wider_lo, wider_hi),
{
    let positions = a_placement(query, text, lo, hi);
    assert(is_embedding(query, text, wider_lo, wider_hi, positions));
}

/// No occurrence of a query starts before the first position of the
/// query's first character.
pub proof fn occurrence_starts_at_first_index(
    query: Seq<char>,
    text: Seq<char>,
    hi: int,
    first: int,
)
    requires
        query.len() > 0,
        occurs_in(query, text, 0, hi),
        is_first_index_of(text, query[0], first),
    ensures
        occurs_in(query, text, first, hi),
        first < hi,
{
    let positions = a_placement(query, text, 0, hi);
    assert(first <= positions[0]);
    assert forall|k: int| 0 <= k < positions.len() implies first <= #[trigger] positions[k] by {
        if k > 0 {
            assert(positions[0] < positions[k]);
        }
    }
    assert(is_embedding(query, text, first, hi, positions));
}

/// An occurrence needs at least as many characters as the query has.
pub proof fn occurrence_needs_room(query: Seq<char>, text: Seq<char>, lo: int, hi: int)
    requires
        occurs_in(query, text, lo, hi),
    ensures
        query.len() == 0 || lo + query.len() <= hi,
{
    let positions = a_placement(query, text, lo, hi);
    placement_is_spread(positions, lo, positions.len() as int);
    if positions.len() > 0 {
        assert(lo + positions.len() - 1 <= positions[positions.len() - 1]);
    }
}

proof fn placement_is_spread(positions: Seq<int>, lo: int, upto: int)
    requires
        0 <= upto <= positions.len(),
        forall|k: int| 0 <= k < positions.len() ==> lo <= #[trigger] positions[k],
        forall|j: int, k: int|
            0 <= j < k < positions.len() ==> #[trigger] positions[j] < #[trigger] positions[k],
    ensures
        forall|k: int| 0 <= k < upto ==> lo + k <= #[trigger] positions[k],
    decreases upto,
{
    if upto > 0 {
        placement_is_spread(positions, lo, upto - 1);
        if upto > 1 {
            assert(positions[upto - 2] < positions[upto - 1]);
        }
    }
}

/// There is at most one first position of a character.
pub proof fn first_index_is_unique(text: Seq<char>, c: char, at: int)
    requires
        is_first_index_of(text, c, at),
    ensures
        first_index_of(text, c) == at,
{
}

/// There is at most one earliest end.
pub proof fn earliest_end_is_unique(query: Seq<char>, text: Seq<char>, end: int)
    requires
        is_earliest_end(query, text, end),
    ensures
        earliest_end(query, text) == end,
{
}

/// There is at most one latest start.
pub proof fn latest_start_is_unique(query: Seq<char>, text: Seq<char>, end: int, start: int)
    requires
        is_latest_start(query, text, end, start),
    ensures
        latest_start(query, text, end) == start,
{
}

/// The left-to-right scan never loses what it has matched.
pub proof fn scan_cursor_grows(query: Seq<char>, text: Seq<char>, earlier: int, later: int)
    requires
        earlier <= later,
    ensures
        scan_cursor(query, text, earlier) <= scan_cursor(query, text, later),
    decreases later - earlier,
{
    if earlier < later {
        scan_cursor_grows(query, text, earlier, later - 1);
    }
}

/// The right-to-left scan never loses what it has matched.
pub proof fn reverse_scan_cursor_grows(
    query: Seq<char>,
    text: Seq<char>,
    earlier: int,
    later: int,
    end: int,
)
    requires
        earlier <= later,
    ensures
        reverse_scan_cursor(query, text, later, end) <= reverse_scan_cursor(
            query,
            text,
            earlier,
            end,
        ),
    decreases later - earlier,
{
    if earlier < later {
        reverse_scan_cursor_grows(query, text, earlier + 1, later, end);
    }
}

/// The earliest end is where the left-to-right scan completes the query:
/// it has matched all of the query at `end`, and not yet one character
/// before.
pub proof fn earliest_end_by_scan(query: Seq<char>, text: Seq<char>, end: int)
    requires
        0 < end <= text.len(),
        scan_cursor(query, text, end) == query.len(),
        scan_cursor(query, text, end - 1) < query.len(),
    ensures
        is_subsequence(query, text),
        is_earliest_end(query, text, end),
        earliest_end(query, text) == end,
{
    scan_decides_occurrence(query, text, end);
    assert forall|shorter: int| 0 <= shorter < end implies !occurs_in(query, text, 0, shorter) by {
        scan_cursor_grows(query, text, shorter, end - 1);
        scan_decides_occurrence(query, text, shorter);
    }
    occurrence_widens(query, text, 0, end, 0, text.len() as int);
    earliest_end_is_unique(query, text, end);
}

/// The latest start is where the right-to-left scan from `end` completes
/// the query: it has matched all of the query at `start`, and not yet one
/// character after.
pub proof fn latest_start_by_scan(query: Seq<char>, text: Seq<char>, end: int, start: int)
    requires
        0 <= start < end <= text.len(),
        reverse_scan_cursor(query, text, start, end) == query.len(),
        reverse_scan_cursor(query, text, start + 1, end) < query.len(),
    ensures
        is_latest_start(query, text, end, start),
        latest_start(query, text, end) == start,
{
    reverse_scan_decides_occurrence(query, text, start, end);
    assert forall|later: int| start < later <= end implies !occurs_in(query, text, later, end) by {
        reverse_scan_cursor_grows(query, text, start + 1, later, end);
        reverse_scan_decides_occurrence(query, text, later, end);
    }
    latest_start_is_unique(query, text, end, start);
}

/// A query is no subsequence of a text exactly if the left-to-right scan
/// reaches the end of the text before the end of the query.
pub proof fn subsequence_by_scan(query: Seq<char>, text: Seq<char>)
    ensures
        is_subsequence(query, text) <==> scan_cursor(query, text, text.len() as int)
            == query.len(),
{
    scan_decides_occurrence(query, text, text.len() as int);
}

/// A query that occurs in a text has a first position of its first
/// character, an earliest end and a latest start before that end, and
/// these three bound the occurrence as one expects: the span from the
/// first position to the earliest end holds the query, and the latest
/// start lies within it.
pub proof fn subsequence_has_a_span(query: Seq<char>, text: Seq<char>)
    requires
        query.len() > 0,
        is_subsequence(query, text),
    ensures
        is_first_index_of(text, query[0], first_index_of(text, query[0])),
        is_earliest_end(query, text, earliest_end(query, text)),
        is_latest_start(
            query,
            text,
            earliest_end(query, text),
            latest_start(query, text, earliest_end(query, text)),
        ),
        first_index_of(text, query[0]) <= latest_start(query, text, earliest_end(query, text)),
        latest_start(query, text, earliest_end(query, text)) < earliest_end(query, text),
        first_index_of(text, query[0]) + query.len() <= earliest_end(query, text),
{
    let whole = text.len() as int;
    scan_decides_occurrence(query, text, whole);
    let end = first_complete(query, text, whole);
    earliest_end_by_scan(query, text, end);
    reverse_scan_decides_occurrence(query, text, 0, end);
    occurrence_needs_room(query, text, 0, end);
    let start = last_complete(query, text, 0, end);
    latest_start_by_scan(query, text, end, start);
    let placed = a_placement(query, text, start, end);
    let first = first_occurrence(text, query[0], placed[0]);
    first_index_is_unique(text, query[0], first);
    occurrence_starts_at_first_index(query, text, end, first);
    occurrence_needs_room(query, text, first, end);
}

/// The least `end` no greater than `upto` at which the left-to-right scan
/// has matched all of the query.
proof fn first_complete(query: Seq<char>, text: Seq<char>, upto: int) -> (end: int)
    requires
        query.len() > 0,
        0 <= upto,
        scan_cursor(query, text, upto) == query.len(),
    ensures
        0 < end <= upto,
        scan_cursor(query, text, end) == query.len(),
        scan_cursor(query, text, end - 1) < query.len(),
    decreases upto,
{
    if scan_cursor(query, text, upto - 1) == query.len() {
        first_complete(query, text, upto - 1)
    } else {
        if upto > 0 {
            scan_cursor_bounded(query, text, upto - 1);
        }
        upto
    }
}

proof fn scan_cursor_bounded(query: Seq<char>, text: Seq<char>, upto: int)
    ensures
        0 <= scan_cursor(query, text, upto) <= query.len(),
    decreases upto,
{
    if upto > 0 {
        scan_cursor_bounded(query, text, upto - 1);
    }
}

proof fn reverse_scan_cursor_bounded(query: Seq<char>, text: Seq<char>, from: int, end: int)
    ensures
        0 <= reverse_scan_cursor(query, text, from, end) <= query.len(),
    decreases end - from,
{
    if from < end {
        reverse_scan_cursor_bounded(query, text, from + 1, end);
    }
}

/// The greatest `start` no less than `from` at which the right-to-left
/// scan from `end` has matched all of the query.
proof fn last_complete(query: Seq<char>, text: Seq<char>, from: int, end: int) -> (start: int)
    requires
        query.len() > 0,
        from <= end,
        reverse_scan_cursor(query, text, from, end) == query.len(),
    ensures
        from <= start < end,
        reverse_scan_cursor(query, text, start, end) == query.len(),
        reverse_scan_cursor(query, text, start + 1, end) < query.len(),
    decreases end - from,
{
    if reverse_scan_cursor(query, text, from + 1, end) == query.len() {
        last_complete(query, text, from + 1, end)
    } else {
        reverse_scan_cursor_bounded(query, text, from + 1, end);
        from
    }
}

/// The first position of `c` in `text`, given that `c` stands at `at`.
proof fn first_occurrence(text: Seq<char>, c: char, at: int) -> (first: int)
    requires
        0 <= at < text.len(),
        text[at] == c,
    ensures
        is_first_index_of(text, c, first),
        first <= at,
    decreases at,
{
    if exists|i: int| 0 <= i < at && text[i] == c {
        let i = choose|i: int| 0 <= i < at && text[i] == c;
        first_occurrence(text, c, i)
    } else {
        at
    }
}

} // verus!
