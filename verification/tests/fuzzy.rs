use openkite::fuzzy::{fuzzy_match, rank};

#[test]
fn fuzzy_match_requires_an_in_order_subsequence() {
    let m = fuzzy_match("dpl", "deployments").unwrap();
    assert_eq!(m.positions.len(), 3);
    assert_eq!(m.positions[0], 0);
    assert!(fuzzy_match("xyz", "deployments").is_none());
    assert_eq!(fuzzy_match("", "anything").unwrap().score, 0);
}

#[test]
fn rank_orders_best_first_and_keeps_ties_stable() {
    let ranked = rank("po", vec![("pods", 1), ("deployments", 2), ("pods", 3), ("xyz", 4)]);
    let ids: Vec<i32> = ranked.iter().map(|(_, id)| *id).collect();
    assert_eq!(ids[0], 1);
    assert_eq!(ids[1], 3);
    assert!(!ids.contains(&4));
    for w in ranked.windows(2) {
        assert!(w[0].0.score >= w[1].0.score);
    }
}

#[test]
fn empty_query_matches_every_candidate_with_no_positions() {
    for candidate in ["", "pods", "Deployment"] {
        let m = fuzzy_match("", candidate).unwrap();
        assert_eq!(m.score, 0);
        assert!(m.positions.is_empty());
    }
}
