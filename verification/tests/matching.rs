use fuzzy_finder::matcher::{
    chars_of, fuzzy_match, fuzzy_match_with, MatchOutcome, MatchResult, MAX_TEXT_LEN,
};
use fuzzy_finder::config::ScoreConfig;

fn compare_results(s1: &str, s2: &str, pattern_str: &str) -> (i32, i32) {
    let pattern: Vec<char> = pattern_str.chars().collect();

    let res1 = fuzzy_match(s1, &pattern).score;
    let res2 = fuzzy_match(s2, &pattern).score;

    (res1, res2)
}

fn run(text: &str, query: &str) -> MatchResult {
    let pattern: Vec<char> = query.chars().collect();
    fuzzy_match(text, &pattern)
}

fn matched(start: usize, end: usize, score: i32) -> MatchResult {
    MatchResult { outcome: MatchOutcome::Matched, start, end, score }
}

#[test]
fn matching_at_special_positions() {
    let (without_positions, with_positions) =
        compare_results("fuzzyfinder", "fuzzy-finder", "ff");

    assert!(with_positions > without_positions);
}

#[test]
fn first_character_specialty() {
    let (first_char, second_char) = compare_results("fo-bar", "foob-r", "br");

    assert!(first_char > second_char);
}

#[test]
fn gap_penalty() {
    let (normal, position_with_gap) =
        compare_results("fuzzyfinder", "fuzzy-blurry-finder", "ff");

    assert!(normal == position_with_gap);
}

#[test]
fn consecutive_matching_chunk() {
    let (consecutive, broken) = compare_results("foobar", "foo-bar", "foob");

    assert!(consecutive > broken)
}

#[test]
fn consecutive_bonus_depending_on_first() {
    let (consecutive, firsts) = compare_results("foobar", "out-of-bound", "oob");

    assert!(firsts > consecutive)
}

#[test]
fn empty_query_is_told_apart_whatever_the_text() {
    for text in ["", "a", "foobar", "fuzzy-finder", "héllo wörld"] {
        let result = run(text, "");
        assert_eq!(
            result,
            MatchResult { outcome: MatchOutcome::EmptyQuery, start: 0, end: 0, score: 0 }
        );
    }
}

#[test]
fn query_that_is_no_subsequence_is_no_match() {
    let no_match = MatchResult { outcome: MatchOutcome::NoMatch, start: 0, end: 0, score: 0 };
    assert_eq!(run("", "a"), no_match);
    assert_eq!(run("abc", "abcd"), no_match);
    assert_eq!(run("abc", "ca"), no_match);
    assert_eq!(run("fooBar", "fb"), no_match);
    assert_eq!(run("foobar", "x"), no_match);
}

#[test]
fn scores_of_the_boundary_cases_are_exact() {
    assert_eq!(run("fuzzyfinder", "ff"), matched(0, 6, 46));
    assert_eq!(run("fuzzy-finder", "ff"), matched(0, 7, 53));
    assert_eq!(run("fuzzy-blurry-finder", "ff"), matched(0, 14, 46));
    assert_eq!(run("fo-bar", "br"), matched(3, 6, 45));
    assert_eq!(run("foob-r", "br"), matched(3, 6, 37));
}

#[test]
fn scores_of_runs_are_exact() {
    assert_eq!(run("foobar", "foob"), matched(0, 4, 114));
    assert_eq!(run("foo-bar", "foob"), matched(0, 5, 109));
    assert_eq!(run("foobar", "oob"), matched(1, 4, 56));
    assert_eq!(run("out-of-bound", "oob"), matched(0, 8, 75));
    assert_eq!(run("src/main.rs", "main"), matched(4, 8, 109));
    assert_eq!(run("abcabc", "abc"), matched(0, 3, 88));
}

#[test]
fn first_character_bonus_is_doubled() {
    // After a blank, a delimiter and a non-word character; inside a word.
    assert_eq!(run("a b", "b"), matched(2, 3, 16 + 2 * 10));
    assert_eq!(run("a/b", "b"), matched(2, 3, 16 + 2 * 9));
    assert_eq!(run("a-b", "b"), matched(2, 3, 16 + 2 * 8));
    assert_eq!(run("ab", "b"), matched(1, 2, 16));
    assert_eq!(run("xay", "a"), matched(1, 2, 16));
    // A digit after a letter, and after a digit.
    assert_eq!(run("a1", "1"), matched(1, 2, 16 + 2 * 7));
    assert_eq!(run("12", "2"), matched(1, 2, 16));
    // A blank and a delimiter that are matched themselves.
    assert_eq!(run(" ", " "), matched(0, 1, 16 + 2 * 10));
    assert_eq!(run("a,b", ","), matched(1, 2, 16 + 2 * 8));
}

#[test]
fn gap_costs_its_start_once_and_each_extension() {
    assert_eq!(run("a--b", "ab"), matched(0, 4, 56));
    assert_eq!(run("a---b", "ab"), matched(0, 5, 55));
}

#[test]
fn span_is_the_forward_one_and_score_the_tightened_one() {
    // Forward: `a` at 0, `b` at 2. Backward from 2: `a` at 1.
    assert_eq!(run("aab", "ab"), matched(0, 3, 36));
    // Forward: `b` at 4, `z` at 10. Backward from 10: `b` at 8.
    assert_eq!(run("foo bar baz", "bz"), matched(4, 11, 49));
    assert_eq!(run("aXbab", "ab"), matched(0, 3, 49));
    assert_eq!(run("abab", "ab"), matched(0, 2, 62));
}

#[test]
fn positions_count_characters_not_bytes() {
    assert_eq!(run("héllo wörld", "wr"), matched(6, 9, 49));
    assert_eq!(chars_of("héllo"), vec!['h', 'é', 'l', 'l', 'o']);
    assert_eq!(chars_of(""), Vec::<char>::new());
}

#[test]
fn letters_beyond_ascii_have_their_case() {
    // A lowercase and an uppercase letter at the start earn the boundary
    // bonus; a lowercase letter inside a word earns nothing.
    assert_eq!(run("δx", "δ"), matched(0, 1, 36));
    assert_eq!(run("Δx", "Δ"), matched(0, 1, 36));
    assert_eq!(run("xðy", "ð"), matched(1, 2, 16));
    // Lower to upper is a camel boundary.
    assert_eq!(run("aΔ", "Δ"), matched(1, 2, 16 + 2 * 7));
}

#[test]
fn matching_twice_gives_the_same() {
    for (text, query) in [("fuzzy-finder", "ff"), ("foobar", "x"), ("abc", ""), ("aab", "ab")] {
        assert_eq!(run(text, query), run(text, query));
    }
}

#[test]
fn standard_profile_and_explicit_profile_agree() {
    let cfg = ScoreConfig::standard();
    let text: Vec<char> = "out-of-bound".chars().collect();
    let query: Vec<char> = "oob".chars().collect();
    assert_eq!(fuzzy_match_with(&cfg, &text, &query), run("out-of-bound", "oob"));
}

#[test]
fn other_profile_changes_the_score_only() {
    let cfg = ScoreConfig::new(32, -6, -2, 3).unwrap();
    let text: Vec<char> = "a--b".chars().collect();
    let query: Vec<char> = "ab".chars().collect();
    // `a`: 32 + 3 * 18; gap: -6 - 2; `b` after a non-word character: 32 + 16.
    assert_eq!(fuzzy_match_with(&cfg, &text, &query), matched(0, 4, 86 - 8 + 48));
}

#[test]
fn text_limit_leaves_room_for_the_score() {
    assert_eq!(MAX_TEXT_LEN, 59_652_323);
    assert!((MAX_TEXT_LEN as i64) * 36 <= i32::MAX as i64);
    assert!((MAX_TEXT_LEN as i64 + 1) * 36 > i32::MAX as i64);
}
