use avro_phonetic::matcher::{
    fuzzy_match, fuzzy_score, rank_by_score, rank_matches, relevant_score, score_or_none,
};

#[test]
fn raw_scores_below_one_are_no_match() {
    assert_eq!(relevant_score(None), None);
    assert_eq!(relevant_score(Some(-1)), None);
    assert_eq!(relevant_score(Some(0)), None);
    assert_eq!(relevant_score(Some(1)), Some(1));
    assert_eq!(relevant_score(Some(57)), Some(57));
    assert_eq!(relevant_score(Some(i64::MIN)), None);
    assert_eq!(relevant_score(Some(i64::MAX)), Some(i64::MAX));
}

#[test]
fn fuzzy_match_scores_candidates() {
    assert_eq!(fuzzy_match("paracetamol", ""), None);
    assert_eq!(fuzzy_match("", "a"), None);
    assert_eq!(fuzzy_match("abc", "abx"), None);
    let exact = fuzzy_match("napa", "napa").unwrap();
    let loose = fuzzy_match("nxaxpxa", "napa").unwrap();
    assert!(exact >= 1);
    assert!(loose >= 1);
    assert!(exact > loose);
    assert_eq!(fuzzy_match("napa", "napa"), Some(exact));
    assert!(fuzzy_match("Napa Extra", "napa").is_some());
}

#[test]
fn ranking_orders_by_score_and_keeps_ties_in_order() {
    assert_eq!(rank_by_score(&vec![]), Vec::<usize>::new());
    assert_eq!(rank_by_score(&vec![None, None]), Vec::<usize>::new());
    assert_eq!(rank_by_score(&vec![Some(5)]), vec![0]);
    assert_eq!(rank_by_score(&vec![Some(1), Some(3), Some(2)]), vec![1, 2, 0]);
    assert_eq!(rank_by_score(&vec![Some(3), Some(2), Some(1)]), vec![0, 1, 2]);
    assert_eq!(
        rank_by_score(&vec![Some(2), None, Some(7), Some(2), None, Some(7), Some(1)]),
        vec![2, 5, 0, 3, 6]
    );
    assert_eq!(rank_by_score(&vec![Some(4), Some(4), Some(4)]), vec![0, 1, 2]);
    assert_eq!(rank_by_score(&vec![Some(i64::MIN), Some(i64::MAX), Some(0)]), vec![1, 2, 0]);
}

#[test]
fn matches_are_ranked_best_first() {
    let data: Vec<String> =
        ["Nxaxpxa", "Paracetamol", "Napa", "Napa Extra", "Ace"].iter().map(|s| s.to_string()).collect();
    let names = rank_matches(&data, "NAPA");
    assert_eq!(names.len(), 3);
    assert!(names.contains(&"Napa".to_string()));
    assert!(names.contains(&"Napa Extra".to_string()));
    assert_eq!(names[2], "Nxaxpxa");
    let scores: Vec<Option<i64>> = data.iter().map(|d| fuzzy_match(d, "napa")).collect();
    let expected: Vec<String> = rank_by_score(&scores).iter().map(|i| data[*i].clone()).collect();
    assert_eq!(names, expected);
    assert_eq!(rank_matches(&data, ""), Vec::<String>::new());
    assert_eq!(rank_matches(&data, "zzz"), Vec::<String>::new());
    assert_eq!(rank_matches(&Vec::new(), "napa"), Vec::<String>::new());
}

#[test]
fn query_is_matched_in_lower_case() {
    let data = vec!["napa".to_string()];
    // An upper-case query would ask for upper-case letters in the candidate.
    assert_eq!(fuzzy_match("napa", "NAPA"), None);
    assert_eq!(rank_matches(&data, "NAPA"), data);
}

#[test]
fn raw_scores_are_handed_on() {
    assert_eq!(score_or_none(None), -1);
    assert_eq!(score_or_none(Some(0)), 0);
    assert_eq!(score_or_none(Some(-7)), -7);
    assert_eq!(score_or_none(Some(42)), 42);
    assert_eq!(fuzzy_score("paracetamol", ""), 0);
    assert_eq!(fuzzy_score("abc", "abx"), -1);
    assert_eq!(fuzzy_score("", "a"), -1);
    assert_eq!(Some(fuzzy_score("napa", "napa")), fuzzy_match("napa", "napa"));
    assert!(fuzzy_score("napa", "napa") > fuzzy_score("nxaxpxa", "napa"));
}
