//! The bonus table: what a match earns from the classes of the character
//! before it and of the character itself.

use vstd::prelude::*;
use crate::char_class::CharClass;
use crate::config::ScoreConfig;

verus! {

/// The bonus of a character of class `current` that follows a character of
/// class `previous`. The rules are tried in this order:
///
/// - a word character after a blank, a delimiter or a non-word character
///   earns the matching boundary bonus;
/// - an uppercase letter after a lowercase one, and a digit after anything
///   but a digit, earn the camel bonus;
/// - a non-word character or a delimiter earns the non-word bonus, a blank
///   the bonus of a boundary after a blank;
/// - everything else earns nothing.
pub open spec fn bonus(cfg: ScoreConfig, previous: CharClass, current: CharClass) -> int {
    if current.is_word() && previous == CharClass::White {
        cfg.boundary_white()
    } else if current.is_word() && previous == CharClass::Delimiter {
        cfg.boundary_delimiter()
    } else if current.is_word() && previous == CharClass::NonWord {
        cfg.boundary()
    } else if previous == CharClass::Lower && current == CharClass::Upper {
        cfg.camel()
    } else if current == CharClass::Number && previous != CharClass::Number {
        cfg.camel()
    } else if current == CharClass::NonWord || current == CharClass::Delimiter {
        cfg.non_word()
    } else if current == CharClass::White {
        cfg.boundary_white()
    } else {
        0
    }
}

/// Looks the bonus up for a pair of classes.
pub fn bonus_for(cfg: &ScoreConfig, previous: CharClass, current: CharClass) -> (b: i32)
    requires
        cfg.wf(),
    ensures
        b == bonus(*cfg, previous, current),
{
    let current_is_word = !matches!(current, CharClass::White | CharClass::NonWord);

    if current_is_word {
        match previous {
            CharClass::White => return cfg.boundary_white_bonus(),
            CharClass::Delimiter => return cfg.boundary_delimiter_bonus(),
            CharClass::NonWord => return cfg.boundary_bonus(),
            _ => {},
        }
    }
    match (previous, current) {
        (CharClass::Lower, CharClass::Upper) => return cfg.camel_bonus(),
        (CharClass::Number, CharClass::Number) => {},
        (_, CharClass::Number) => return cfg.camel_bonus(),
        (_, _) => {},
    }

    match current {
        CharClass::NonWord | CharClass::Delimiter => cfg.non_word_bonus(),
        CharClass::White => cfg.boundary_white_bonus(),
        _ => 0,
    }
}

/// Every bonus lies between the camel bonus, or zero if that is less, and
/// the largest bonus of the profile.
pub proof fn bonus_is_bounded(cfg: ScoreConfig, previous: CharClass, current: CharClass)
    requires
        cfg.wf(),
    ensures
        bonus(cfg, previous, current) <= cfg.largest_bonus(),
        bonus(cfg, previous, current) >= cfg.camel() || bonus(cfg, previous, current) >= 0,
        bonus(cfg, previous, current) >= -cfg.largest_bonus(),
{
}

/// A word character at a boundary earns strictly more than the same
/// character inside a word. Behind a blank it earns the most, behind a
/// delimiter less, behind another non-word character less again.
pub proof fn boundary_beats_interior(cfg: ScoreConfig, current: CharClass)
    requires
        cfg.wf(),
        current == CharClass::Lower || current == CharClass::Upper,
    ensures
        bonus(cfg, CharClass::White, current) > bonus(cfg, CharClass::Delimiter, current),
        bonus(cfg, CharClass::Delimiter, current) > bonus(cfg, CharClass::NonWord, current),
        bonus(cfg, CharClass::NonWord, current) > bonus(cfg, current, current),
        bonus(cfg, current, current) == 0,
{
}

} // verus!
