use fuzzy_finder::bonus::bonus_for;
use fuzzy_finder::char_class::{get_char_type, CharClass};
use fuzzy_finder::config::{ScoreConfig, MULTIPLIER_LIMIT, WEIGHT_LIMIT};
use fuzzy_finder::scan::{backward_pass, forward_pass};
use fuzzy_finder::score::calculate_score;

fn chars(s: &str) -> Vec<char> {
    s.chars().collect()
}

#[test]
fn ascii_characters_are_classified() {
    assert_eq!(get_char_type('a'), CharClass::Lower);
    assert_eq!(get_char_type('z'), CharClass::Lower);
    assert_eq!(get_char_type('x'), CharClass::Lower);
    assert_eq!(get_char_type('A'), CharClass::Upper);
    assert_eq!(get_char_type('Z'), CharClass::Upper);
    assert_eq!(get_char_type('0'), CharClass::Number);
    assert_eq!(get_char_type('9'), CharClass::Number);
    for c in ['\'', '/', ',', ':', ';', '|'] {
        assert_eq!(get_char_type(c), CharClass::Delimiter);
    }
    for c in [' ', '\t', '\n', '\u{0B}', '\u{0C}', '\r', '\u{85}', '\u{A0}'] {
        assert_eq!(get_char_type(c), CharClass::White);
    }
    for c in ['-', '_', '.', '@', '[', '`', '{', '\0', '\u{7f}', '\\', '"'] {
        assert_eq!(get_char_type(c), CharClass::NonWord);
    }
}

#[test]
fn characters_beyond_ascii_are_classified() {
    assert_eq!(get_char_type('δ'), CharClass::Lower);
    assert_eq!(get_char_type('é'), CharClass::Lower);
    assert_eq!(get_char_type('Δ'), CharClass::Upper);
    assert_eq!(get_char_type('É'), CharClass::Upper);
    assert_eq!(get_char_type('中'), CharClass::NonWord);
    assert_eq!(get_char_type('—'), CharClass::NonWord);
    // Only the digits `0` to `9` are numbers, only the eight listed blanks
    // are blank.
    assert_eq!(get_char_type('٣'), CharClass::NonWord);
    assert_eq!(get_char_type('\u{2003}'), CharClass::NonWord);
}

#[test]
fn bonus_table_of_the_standard_profile() {
    let cfg = ScoreConfig::standard();
    let (white, non_word, delimiter) = (CharClass::White, CharClass::NonWord, CharClass::Delimiter);
    let (lower, upper, number) = (CharClass::Lower, CharClass::Upper, CharClass::Number);
    // Word characters at a boundary.
    for current in [delimiter, lower, upper, number] {
        assert_eq!(bonus_for(&cfg, white, current), 10);
        assert_eq!(bonus_for(&cfg, delimiter, current), 9);
        assert_eq!(bonus_for(&cfg, non_word, current), 8);
    }
    // Camel case and the first digit of a number.
    assert_eq!(bonus_for(&cfg, lower, upper), 7);
    assert_eq!(bonus_for(&cfg, lower, number), 7);
    assert_eq!(bonus_for(&cfg, upper, number), 7);
    assert_eq!(bonus_for(&cfg, number, number), 0);
    // Non-word characters, delimiters and blanks that are matched.
    for previous in [white, non_word, delimiter, lower, upper, number] {
        assert_eq!(bonus_for(&cfg, previous, non_word), 8);
        assert_eq!(bonus_for(&cfg, previous, white), 10);
    }
    for previous in [lower, upper, number] {
        assert_eq!(bonus_for(&cfg, previous, delimiter), 8);
    }
    // Inside a word.
    assert_eq!(bonus_for(&cfg, lower, lower), 0);
    assert_eq!(bonus_for(&cfg, upper, upper), 0);
    assert_eq!(bonus_for(&cfg, upper, lower), 0);
    assert_eq!(bonus_for(&cfg, number, lower), 0);
    assert_eq!(bonus_for(&cfg, number, upper), 0);
}

#[test]
fn boundary_earns_more_than_interior() {
    let cfg = ScoreConfig::standard();
    let white = bonus_for(&cfg, CharClass::White, CharClass::Lower);
    let delimiter = bonus_for(&cfg, CharClass::Delimiter, CharClass::Lower);
    let non_word = bonus_for(&cfg, CharClass::NonWord, CharClass::Lower);
    let interior = bonus_for(&cfg, CharClass::Lower, CharClass::Lower);
    assert!(white > delimiter && delimiter > non_word && non_word > interior);
    assert_eq!(interior, 0);
}

#[test]
fn standard_profile_and_its_bonuses() {
    let cfg = ScoreConfig::standard();
    assert_eq!(cfg.score_match, 16);
    assert_eq!(cfg.gap_start, -3);
    assert_eq!(cfg.gap_extension, -1);
    assert_eq!(cfg.first_char_multiplier, 2);
    assert_eq!(cfg.boundary_bonus(), 8);
    assert_eq!(cfg.boundary_white_bonus(), 10);
    assert_eq!(cfg.boundary_delimiter_bonus(), 9);
    assert_eq!(cfg.camel_bonus(), 7);
    assert_eq!(cfg.non_word_bonus(), 8);
    assert_eq!(cfg.consecutive_bonus(), 4);
    assert_eq!(ScoreConfig::new(16, -3, -1, 2), Some(cfg));
}

#[test]
fn profile_is_made_only_from_usable_weights() {
    assert!(ScoreConfig::new(2, -1, 0, 1).is_some());
    assert!(ScoreConfig::new(WEIGHT_LIMIT, -WEIGHT_LIMIT, 0, MULTIPLIER_LIMIT).is_some());
    // Match value too small or too large.
    assert_eq!(ScoreConfig::new(1, -3, -1, 2), None);
    assert_eq!(ScoreConfig::new(WEIGHT_LIMIT + 1, -3, -1, 2), None);
    // Gap start not below gap extension, or a reward, or out of range.
    assert_eq!(ScoreConfig::new(16, -1, -1, 2), None);
    assert_eq!(ScoreConfig::new(16, -1, -3, 2), None);
    assert_eq!(ScoreConfig::new(16, -3, 1, 2), None);
    assert_eq!(ScoreConfig::new(16, -WEIGHT_LIMIT - 1, -1, 2), None);
    // Multiplier out of range.
    assert_eq!(ScoreConfig::new(16, -3, -1, 0), None);
    assert_eq!(ScoreConfig::new(16, -3, -1, MULTIPLIER_LIMIT + 1), None);
}

#[test]
fn forward_pass_finds_the_earliest_span() {
    assert_eq!(forward_pass(&chars("fuzzy-finder"), &chars("ff")), Some((0, 7)));
    assert_eq!(forward_pass(&chars("xxabxab"), &chars("ab")), Some((2, 4)));
    assert_eq!(forward_pass(&chars("aab"), &chars("ab")), Some((0, 3)));
    assert_eq!(forward_pass(&chars("b"), &chars("b")), Some((0, 1)));
    assert_eq!(forward_pass(&chars("abc"), &chars("abcd")), None);
    assert_eq!(forward_pass(&chars("abc"), &chars("ba")), None);
    assert_eq!(forward_pass(&chars(""), &chars("a")), None);
    assert_eq!(forward_pass(&chars("abc"), &chars("")), None);
    assert_eq!(forward_pass(&chars(""), &chars("")), None);
}

#[test]
fn backward_pass_finds_the_latest_start() {
    assert_eq!(backward_pass(&chars("aab"), &chars("ab"), 0, 3), 1);
    assert_eq!(backward_pass(&chars("foo bar baz"), &chars("bz"), 4, 11), 8);
    assert_eq!(backward_pass(&chars("fuzzy-finder"), &chars("ff"), 0, 7), 0);
    assert_eq!(backward_pass(&chars("aaaa"), &chars("aa"), 0, 4), 2);
    // No occurrence in the span, an empty span, an empty query: the start
    // comes back.
    assert_eq!(backward_pass(&chars("abc"), &chars("ca"), 0, 3), 0);
    assert_eq!(backward_pass(&chars("abc"), &chars("a"), 1, 3), 1);
    assert_eq!(backward_pass(&chars("abc"), &chars("a"), 2, 2), 2);
    assert_eq!(backward_pass(&chars("abc"), &chars(""), 1, 3), 1);
}

#[test]
fn calculate_score_walks_any_span() {
    let cfg = ScoreConfig::standard();
    assert_eq!(calculate_score(&cfg, &chars("foobar"), &chars("foob"), 0, 4), 114);
    assert_eq!(calculate_score(&cfg, &chars("aab"), &chars("ab"), 1, 3), 36);
    // The empty span scores nothing.
    assert_eq!(calculate_score(&cfg, &chars("abc"), &chars("a"), 1, 1), 0);
    // A span without any hit is one gap: -3, then -1 for each further
    // character.
    assert_eq!(calculate_score(&cfg, &chars("abcd"), &chars("x"), 0, 4), -6);
    // Characters after the query is used up are a gap as well.
    assert_eq!(calculate_score(&cfg, &chars("abcd"), &chars("a"), 0, 4), 36 - 3 - 1 - 1);
    assert_eq!(calculate_score(&cfg, &chars("abcd"), &chars(""), 0, 2), -4);
}
