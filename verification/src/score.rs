//! The score of a span: one walk over the span that rewards matches,
//! the more so at boundaries and in runs, and charges for gaps.

use vstd::prelude::*;
use crate::bonus::{bonus, bonus_for, bonus_is_bounded};
use crate::char_class::{class_of, get_char_type, CharClass};
use crate::config::ScoreConfig;

verus! {

/// What the walk knows after some characters of the span.
pub struct ScoreState {
    /// How many characters of the query have been matched.
    pub cursor: int,
    /// The score so far.
    pub score: int,
    /// Whether the last character was unmatched.
    pub in_gap: bool,
    /// How many matches in a row end at the last character.
    pub run: int,
    /// The bonus that the current run carries along; zero outside a run.
    pub first_bonus: int,
    /// Class of the last character.
    pub prev_class: CharClass,
}

/// The larger of two integers.
pub open spec fn larger(a: int, b: int) -> int {
    if a >= b {
        a
    } else {
        b
    }
}

/// The state before the first character of a span that starts at `start`:
/// nothing matched, and the class of the character before the span, or
/// `White` where the span starts the text.
pub open spec fn initial_state(text: Seq<char>, start: int) -> ScoreState {
    ScoreState {
        cursor: 0,
        score: 0,
        in_gap: false,
        run: 0,
        first_bonus: 0,
        prev_class: if 0 < start <= text.len() {
            class_of(text[start - 1])
        } else {
            CharClass::White
        },
    }
}

/// Whether the character `c` is the one the query waits for.
pub open spec fn is_hit(st: ScoreState, c: char, query: Seq<char>) -> bool {
    0 <= st.cursor < query.len() && c == query[st.cursor]
}

/// The bonus that a run carries along once a match with table bonus `raw`
/// has joined it: `raw` itself where the match opens the run, and after
/// that the largest boundary-grade bonus seen in the run, if it exceeds
/// the one the run opened with.
pub open spec fn carried_bonus(cfg: ScoreConfig, st: ScoreState, raw: int) -> int {
    if st.run == 0 {
        raw
    } else if raw >= cfg.boundary() && raw > st.first_bonus {
        raw
    } else {
        st.first_bonus
    }
}

/// The bonus that a match with table bonus `raw` is paid: `raw` where the
/// match opens a run, and inside a run the largest of `raw`, the bonus the
/// run carries and the consecutive bonus.
pub open spec fn applied_bonus(cfg: ScoreConfig, st: ScoreState, raw: int) -> int {
    if st.run == 0 {
        raw
    } else {
        larger(larger(raw, carried_bonus(cfg, st, raw)), cfg.consecutive())
    }
}

/// One step of the walk, over the character `c`.
///
/// A hit earns the match value and the applied bonus, the bonus multiplied
/// where the hit is the query's first character; it ends a gap, extends the
/// run and advances the cursor. Any other character is charged the gap
/// start, or the gap extension inside a gap, and ends the run.
pub open spec fn score_step(
    cfg: ScoreConfig,
    st: ScoreState,
    c: char,
    query: Seq<char>,
) -> ScoreState {
    let class = class_of(c);
    if is_hit(st, c, query) {
        let raw = bonus(cfg, st.prev_class, class);
        let applied = applied_bonus(cfg, st, raw);
        let gain = if st.cursor == 0 {
            applied * cfg.first_char_multiplier
        } else {
            applied
        };
        ScoreState {
            cursor: st.cursor + 1,
            score: st.score + cfg.score_match + gain,
            in_gap: false,
            run: st.run + 1,
            first_bonus: carried_bonus(cfg, st, raw),
            prev_class: class,
        }
    } else {
        ScoreState {
            cursor: st.cursor,
            score: st.score + if st.in_gap {
                cfg.gap_extension
            } else {
                cfg.gap_start
            },
            in_gap: true,
            run: 0,
            first_bonus: 0,
            prev_class: class,
        }
    }
}

/// The state of the walk over `text[start..upto)`.
pub open spec fn score_walk(
    cfg: ScoreConfig,
    text: Seq<char>,
    query: Seq<char>,
    start: int,
    upto: int,
) -> ScoreState
    decreases upto - start,
{
    if upto <= start {
        initial_state(text, start)
    } else {
        score_step(cfg, score_walk(cfg, text, query, start, upto - 1), text[upto - 1], query)
    }
}

/// The score of the span `text[start..end)` for `query`.
pub open spec fn span_score(
    cfg: ScoreConfig,
    text: Seq<char>,
    query: Seq<char>,
    start: int,
    end: int,
) -> int {
    score_walk(cfg, text, query, start, end).score
}

/// Inside a run a match is paid at least its table bonus and at least the
/// consecutive bonus, and never more than the largest of its table bonus,
/// the bonus the run carried so far and the consecutive bonus.
pub proof fn run_bonus_is_bounded(cfg: ScoreConfig, st: ScoreState, raw: int)
    requires
        st.run > 0,
    ensures
        raw <= applied_bonus(cfg, st, raw),
        cfg.consecutive() <= applied_bonus(cfg, st, raw),
        applied_bonus(cfg, st, raw) <= larger(larger(raw, st.first_bonus), cfg.consecutive()),
{
}

/// The bounds within which the walk keeps its state.
pub open spec fn state_in_bounds(cfg: ScoreConfig, st: ScoreState, steps: int) -> bool {
    &&& 0 <= st.cursor <= steps
    &&& 0 <= st.run <= steps
    &&& -cfg.largest_bonus() <= st.first_bonus <= cfg.largest_bonus()
    &&& -(steps * cfg.step_limit()) <= st.score <= steps * cfg.step_limit()
}

proof fn step_keeps_bounds(cfg: ScoreConfig, st: ScoreState, c: char, query: Seq<char>, steps: int)
    requires
        cfg.wf(),
        0 <= steps,
        state_in_bounds(cfg, st, steps),
    ensures
        state_in_bounds(cfg, score_step(cfg, st, c, query), steps + 1),
{
    let limit = cfg.largest_bonus();
    let mult = cfg.first_char_multiplier as int;
    let raw = bonus(cfg, st.prev_class, class_of(c));
    bonus_is_bounded(cfg, st.prev_class, class_of(c));
    let applied = applied_bonus(cfg, st, raw);
    assert(-limit <= applied <= limit);
    assert(-(mult * limit) <= applied * mult <= mult * limit && limit <= mult * limit)
        by (nonlinear_arith)
        requires
            -limit <= applied <= limit,
            1 <= mult,
            0 <= limit,
    ;
    assert((steps + 1) * cfg.step_limit() == steps * cfg.step_limit() + cfg.step_limit())
        by (nonlinear_arith);
}

/// However long the span, the walk moves the score by no more than the
/// step limit for each character, up or down.
pub proof fn score_is_bounded(
    cfg: ScoreConfig,
    text: Seq<char>,
    query: Seq<char>,
    start: int,
    upto: int,
)
    requires
        cfg.wf(),
        start <= upto,
    ensures
        state_in_bounds(cfg, score_walk(cfg, text, query, start, upto), upto - start),
    decreases upto - start,
{
    if upto > start {
        score_is_bounded(cfg, text, query, start, upto - 1);
        step_keeps_bounds(
            cfg,
            score_walk(cfg, text, query, start, upto - 1),
            text[upto - 1],
            query,
            upto - 1 - start,
        );
    }
}

/// Scores the span `text[start..end)` for `query` in one walk.
///
/// The span must lie in the text, and be short enough for the score to fit:
/// its length times the step limit of the profile must not exceed
/// `i32::MAX`.
pub fn calculate_score(
    cfg: &ScoreConfig,
    text: &[char],
    query: &[char],
    start: usize,
    end: usize,
) -> (score: i32)
    requires
        cfg.wf(),
        start <= end <= text@.len(),
        (end - start) * cfg.step_limit() <= i32::MAX,
    ensures
        score == span_score(*cfg, text@, query@, start as int, end as int),
{
    let mut cursor: usize = 0;
    let mut score: i32 = 0;
    let mut in_gap = false;
    let mut run: usize = 0;
    let mut first_bonus: i32 = 0;
    let mut prev_class = if start > 0 {
        get_char_type(text[start - 1])
    } else {
        CharClass::White
    };
    let mut index: usize = start;

    proof {
        score_is_bounded(*cfg, text@, query@, start as int, start as int);
    }
    while index < end
        invariant
            cfg.wf(),
            start <= index <= end <= text@.len(),
            (end - start) * cfg.step_limit() <= i32::MAX,
            score_walk(*cfg, text@, query@, start as int, index as int) == (ScoreState {
                cursor: cursor as int,
                score: score as int,
                in_gap,
                run: run as int,
                first_bonus: first_bonus as int,
                prev_class,
            }),
            state_in_bounds(
                *cfg,
                score_walk(*cfg, text@, query@, start as int, index as int),
                index - start,
            ),
        decreases end - index,
    {
        let c = text[index];
        let class = get_char_type(c);
        proof {
            let before = score_walk(*cfg, text@, query@, start as int, index as int);
            step_keeps_bounds(*cfg, before, c, query@, index - start);
            let steps = index - start + 1;
            let span = end - start;
            let limit = cfg.step_limit();
            assert(steps * limit <= span * limit) by (nonlinear_arith)
                requires
                    steps <= span,
                    0 <= limit,
            ;
            bonus_is_bounded(*cfg, prev_class, class);
            let bound = cfg.largest_bonus();
            let mult = cfg.first_char_multiplier as int;
            let applied = applied_bonus(*cfg, before, bonus(*cfg, prev_class, class));
            assert(-(16 * bound) <= applied * mult <= 16 * bound) by (nonlinear_arith)
                requires
                    -bound <= applied <= bound,
                    1 <= mult <= 16,
                    0 <= bound,
            ;
        }
        if cursor < query.len() && c == query[cursor] {
            let raw = bonus_for(cfg, prev_class, class);
            let mut applied = raw;
            if run == 0 {
                first_bonus = raw;
            } else {
                if raw >= cfg.boundary_bonus() && raw > first_bonus {
                    first_bonus = raw;
                }
                if first_bonus > applied {
                    applied = first_bonus;
                }
                if cfg.consecutive_bonus() > applied {
                    applied = cfg.consecutive_bonus();
                }
            }
            let gain = if cursor == 0 {
                applied * cfg.first_char_multiplier
            } else {
                applied
            };
            score = score + (cfg.score_match + gain);
            in_gap = false;
            run = run + 1;
            cursor = cursor + 1;
        } else {
            if in_gap {
                score = score + cfg.gap_extension;
            } else {
                score = score + cfg.gap_start;
            }
            in_gap = true;
            run = 0;
            first_bonus = 0;
        }
        prev_class = class;
        index = index + 1;
    }
    score
}

} // verus!
