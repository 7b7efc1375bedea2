use zipy::ranking::{rank, score_key, semantic_matches, stable_order};

fn s(x: f32) -> Option<u32> {
    Some(x.to_bits())
}

#[test]
fn ranking_orders_by_score_and_takes_top_k() {
    let scores = vec![s(0.9), s(0.1), None];
    assert_eq!(rank(&scores, 2), vec![0, 1]);
}

#[test]
fn candidate_without_embedding_sorts_last_but_is_kept() {
    let scores = vec![None, s(0.1), s(0.9)];
    assert_eq!(rank(&scores, 3), vec![2, 1, 0]);
}

#[test]
fn negative_scores_rank_below_missing_embeddings() {
    let scores = vec![s(-0.5), None, s(-0.25)];
    assert_eq!(rank(&scores, 10), vec![1, 2, 0]);
}

#[test]
fn equal_scores_keep_candidate_order_on_every_run() {
    let scores = vec![s(0.5), s(0.7), s(0.5), s(0.5)];
    let first = rank(&scores, 4);
    assert_eq!(first, vec![1, 0, 2, 3]);
    for _ in 0..5 {
        assert_eq!(rank(&scores, 4), first);
    }
}

#[test]
fn top_k_zero_gives_nothing() {
    assert_eq!(rank(&vec![s(0.3)], 0), Vec::<usize>::new());
}

#[test]
fn both_zeros_have_the_same_key() {
    assert_eq!(score_key(0.0f32.to_bits()), score_key((-0.0f32).to_bits()));
    assert_eq!(score_key(0.0f32.to_bits()), 0);
    assert!(score_key(0.5f32.to_bits()) > score_key(0.25f32.to_bits()));
    assert!(score_key((-0.5f32).to_bits()) < score_key((-0.25f32).to_bits()));
}

#[test]
fn matches_above_floor_only() {
    let scores = vec![s(0.2), s(0.9), None, s(0.6), s(0.3)];
    assert_eq!(semantic_matches(&scores, 10, 0.3f32.to_bits()), vec![1, 3]);
    assert_eq!(semantic_matches(&scores, 1, 0.3f32.to_bits()), vec![1]);
}

#[test]
fn ascending_stable_order() {
    assert_eq!(stable_order(&vec![3, 1, 2, 1], false, 4), vec![1, 3, 2, 0]);
    assert_eq!(stable_order(&vec![3, 1, 2, 1], true, 2), vec![0, 2]);
}
