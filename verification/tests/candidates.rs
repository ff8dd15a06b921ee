use fuzzy_finder::filter::name_is_valid;
use fuzzy_finder::ranking::{comes_before, top_ranked, SearchResult};
use fuzzy_finder::search::search;

fn strings(list: &[&str]) -> Vec<String> {
    list.iter().map(|s| s.to_string()).collect()
}

fn found(candidate: usize, score: i32) -> SearchResult {
    SearchResult { candidate, score }
}

#[test]
fn hidden_and_denied_segments_rule_a_path_out() {
    let denied = strings(&["node_modules", "env"]);
    assert!(name_is_valid(&strings(&["src", "algo"]), &denied));
    assert!(name_is_valid(&strings(&[]), &denied));
    assert!(name_is_valid(&strings(&[""]), &denied));
    assert!(name_is_valid(&strings(&["environment", "node"]), &denied));
    assert!(name_is_valid(&strings(&["a.b", "c_d"]), &denied));
    assert!(!name_is_valid(&strings(&[".git"]), &denied));
    assert!(!name_is_valid(&strings(&["src", "_private"]), &denied));
    assert!(!name_is_valid(&strings(&["web", "node_modules", "left-pad"]), &denied));
    assert!(!name_is_valid(&strings(&["env"]), &denied));
    assert!(!name_is_valid(&strings(&["."]), &denied));
    // Without a denylist only hidden segments count.
    assert!(name_is_valid(&strings(&["env"]), &strings(&[])));
    assert!(!name_is_valid(&strings(&["_env"]), &strings(&[])));
}

#[test]
fn higher_score_comes_first_and_later_candidate_on_a_tie() {
    assert!(comes_before(&found(0, 5), &found(1, 4)));
    assert!(!comes_before(&found(0, 4), &found(1, 5)));
    assert!(comes_before(&found(3, 4), &found(1, 4)));
    assert!(!comes_before(&found(1, 4), &found(3, 4)));
    assert!(!comes_before(&found(1, 4), &found(1, 4)));
}

#[test]
fn top_ranked_keeps_the_best_in_order() {
    let scores = vec![10, 50, -3, 50, 0, 7];
    assert_eq!(
        top_ranked(&scores, 3),
        vec![found(3, 50), found(1, 50), found(0, 10)]
    );
    assert_eq!(
        top_ranked(&scores, 6),
        vec![found(3, 50), found(1, 50), found(0, 10), found(5, 7), found(4, 0), found(2, -3)]
    );
    assert_eq!(top_ranked(&scores, 100).len(), 6);
    assert_eq!(top_ranked(&scores, 1), vec![found(3, 50)]);
    assert_eq!(top_ranked(&scores, 0), vec![]);
    assert_eq!(top_ranked(&vec![], 3), vec![]);
}

#[test]
fn search_scores_every_candidate_and_ranks_them() {
    let candidates = strings(&["fuzzyfinder", "fuzzy-finder", "nothing", "fuzzy-blurry-finder"]);
    let query: Vec<char> = "ff".chars().collect();
    assert_eq!(
        search(&candidates, &query, 10),
        vec![found(1, 53), found(3, 46), found(0, 46), found(2, 0)]
    );
    assert_eq!(search(&candidates, &query, 2), vec![found(1, 53), found(3, 46)]);
    // With an empty query every candidate scores zero.
    assert_eq!(search(&candidates, &[], 2), vec![found(3, 0), found(2, 0)]);
    assert_eq!(search(&strings(&[]), &query, 2), vec![]);
}

#[test]
fn match_with_a_negative_score_ranks_behind_no_match() {
    // `a`, a long gap, `b`: 36 - 3 - 39 + 16 + 4... the gap outweighs the
    // two matches.
    let long_gap = format!("a{}b", "-".repeat(80));
    let candidates = vec![long_gap, "xyz".to_string()];
    let query: Vec<char> = "ab".chars().collect();
    let ranking = search(&candidates, &query, 2);
    assert_eq!(ranking[0], found(1, 0));
    assert_eq!(ranking[1].candidate, 0);
    assert_eq!(ranking[1].score, 36 - 3 - 79 + 16 + 8);
}
