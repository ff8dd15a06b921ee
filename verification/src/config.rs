//! The scoring profile: the few weights from which every bonus and penalty
//! is derived.

use vstd::prelude::*;

verus! {

/// Largest magnitude a weight of a profile may have.
pub const WEIGHT_LIMIT: i32 = 4096;

/// Largest first-character multiplier a profile may have.
pub const MULTIPLIER_LIMIT: i32 = 16;

/// A scoring profile. The four weights are free within `wf`; the bonuses
/// are derived from them, so that only their relative size matters.
#[derive(Clone, Copy, Debug, PartialEq, Eq, Structural)]
pub struct ScoreConfig {
    /// Value of one matched character.
    pub score_match: i32,
    /// Penalty for the first unmatched character of a gap.
    pub gap_start: i32,
    /// Penalty for each further unmatched character of a gap.
    pub gap_extension: i32,
    /// Factor applied to the bonus of the query's first character.
    pub first_char_multiplier: i32,
}

impl ScoreConfig {
    /// A usable profile: a match value of at least two, so that the
    /// boundary bonus is positive; a gap start that costs more than a gap
    /// extension, neither of them a reward; a multiplier of at least one;
    /// and all of them within the limits.
    pub open spec fn wf(&self) -> bool {
        &&& 2 <= self.score_match <= WEIGHT_LIMIT
        &&& -WEIGHT_LIMIT <= self.gap_start < self.gap_extension <= 0
        &&& 1 <= self.first_char_multiplier <= MULTIPLIER_LIMIT
    }

    /// Bonus for a word character that follows a non-word character: half
    /// the match value.
    pub open spec fn boundary(&self) -> int {
        self.score_match / 2
    }

    /// Bonus for a word character that follows a blank, and for a blank
    /// itself.
    pub open spec fn boundary_white(&self) -> int {
        self.boundary() + 2
    }

    /// Bonus for a word character that follows a delimiter.
    pub open spec fn boundary_delimiter(&self) -> int {
        self.boundary() + 1
    }

    /// Bonus for a lower-to-upper transition and for the first digit of a
    /// number.
    pub open spec fn camel(&self) -> int {
        self.boundary() + self.gap_extension
    }

    /// Bonus for a non-word character or a delimiter that is matched.
    pub open spec fn non_word(&self) -> int {
        self.score_match / 2
    }

    /// Least bonus of a match that directly follows another match.
    pub open spec fn consecutive(&self) -> int {
        -(self.gap_start + self.gap_extension)
    }

    /// The largest bonus any match can receive, before the first-character
    /// multiplier.
    pub open spec fn largest_bonus(&self) -> int {
        if self.boundary_white() >= self.consecutive() {
            self.boundary_white()
        } else {
            self.consecutive()
        }
    }

    /// A bound on how far one character of the text can move the score, up
    /// or down.
    pub open spec fn step_limit(&self) -> int {
        self.score_match + self.first_char_multiplier * self.largest_bonus()
    }

    /// The standard profile.
    pub open spec fn standard_spec() -> ScoreConfig {
        ScoreConfig {
            score_match: 16,
            gap_start: -3i32,
            gap_extension: -1i32,
            first_char_multiplier: 2,
        }
    }

    /// The standard profile: match 16, gap start -3, gap extension -1,
    /// first-character multiplier 2.
    #[verifier::when_used_as_spec(standard_spec)]
    pub fn standard() -> (cfg: ScoreConfig)
        ensures
            cfg == Self::standard_spec(),
            cfg.wf(),
            cfg.step_limit() == 36,
    {
        ScoreConfig { score_match: 16, gap_start: -3, gap_extension: -1, first_char_multiplier: 2 }
    }

    /// Makes a profile from four weights, if they form a usable one.
    pub fn new(
        score_match: i32,
        gap_start: i32,
        gap_extension: i32,
        first_char_multiplier: i32,
    ) -> (r: Option<ScoreConfig>)
        ensures
            ({
                let cfg = ScoreConfig {
                    score_match,
                    gap_start,
                    gap_extension,
                    first_char_multiplier,
                };
                r == if cfg.wf() {
                    Some(cfg)
                } else {
                    None
                }
            }),
    {
        if 2 <= score_match && score_match <= WEIGHT_LIMIT && -WEIGHT_LIMIT <= gap_start && gap_start
            < gap_extension && gap_extension <= 0 && 1 <= first_char_multiplier
            && first_char_multiplier <= MULTIPLIER_LIMIT {
            Some(ScoreConfig { score_match, gap_start, gap_extension, first_char_multiplier })
        } else {
            None
        }
    }

    /// The boundary bonus.
    pub fn boundary_bonus(&self) -> (b: i32)
        requires
            self.wf(),
        ensures
            b == self.boundary(),
    {
        self.score_match / 2
    }

    /// The bonus of a boundary after a blank.
    pub fn boundary_white_bonus(&self) -> (b: i32)
        requires
            self.wf(),
        ensures
            b == self.boundary_white(),
    {
        self.score_match / 2 + 2
    }

    /// The bonus of a boundary after a delimiter.
    pub fn boundary_delimiter_bonus(&self) -> (b: i32)
        requires
            self.wf(),
        ensures
            b == self.boundary_delimiter(),
    {
        self.score_match / 2 + 1
    }

    /// The camel bonus.
    pub fn camel_bonus(&self) -> (b: i32)
        requires
            self.wf(),
        ensures
            b == self.camel(),
    {
        self.score_match / 2 + self.gap_extension
    }

    /// The non-word bonus.
    pub fn non_word_bonus(&self) -> (b: i32)
        requires
            self.wf(),
        ensures
            b == self.non_word(),
    {
        self.score_match / 2
    }

    /// The consecutive bonus.
    pub fn consecutive_bonus(&self) -> (b: i32)
        requires
            self.wf(),
        ensures
            b == self.consecutive(),
    {
        -(self.gap_start + self.gap_extension)
    }
}

} // verus!
