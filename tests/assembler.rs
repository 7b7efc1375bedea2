use zipy::assembler::{assemble, choose_history, recent_history, semantic_history, wants_semantic, HistorySource};
use zipy::records::{ChatHistoryEntry, KnowledgeEntry};

fn entry(id: &str, ts: i64, kind: &str, content: &str) -> ChatHistoryEntry {
    ChatHistoryEntry {
        id: id.to_string(),
        timestamp: ts,
        entry_type: kind.to_string(),
        content: content.to_string(),
        metadata: None,
    }
}

fn ids(v: &[ChatHistoryEntry]) -> Vec<String> {
    v.iter().map(|e| e.id.clone()).collect()
}

#[test]
fn failed_embedding_falls_back_to_recency() {
    let stored = vec![
        entry("q", 1, "question", "what?"),
        entry("a1", 2, "answer", "first answer"),
        entry("s1", 3, "summary", "a summary"),
        entry("t", 4, "transcript", "words"),
        entry("a2", 5, "answer", "second answer"),
    ];
    let recent = recent_history(&stored, 2);
    assert_eq!(ids(&recent), vec!["s1", "a2"]);
    let history = choose_history(None, recent);
    assert!(matches!(history, HistorySource::Recency(_)));
    let r = assemble(&None, &vec![], &vec![], 5, &history);
    assert!(r.has_history);
    assert!(!r.semantic);
    assert_eq!(r.context, "## Relevant History\n[summary] a summary\n[answer] second answer\n\n");
}

#[test]
fn empty_recency_tier_leaves_history_out() {
    let history = choose_history(None, vec![]);
    let r = assemble(&None, &vec![], &vec![], 5, &history);
    assert!(!r.has_history);
    assert_eq!(r.context, "");
}

#[test]
fn semantic_tier_is_used_when_it_found_matches() {
    let m = vec![entry("x", 1, "answer", "match")];
    let h = choose_history(Some(m), vec![entry("y", 2, "answer", "recent")]);
    match h {
        HistorySource::Semantic(v) => assert_eq!(ids(&v), vec!["x"]),
        HistorySource::Recency(_) => panic!("expected the semantic tier"),
    }
    let h = choose_history(Some(vec![]), vec![entry("y", 2, "answer", "recent")]);
    assert!(matches!(h, HistorySource::Recency(_)));
}

#[test]
fn semantic_history_keeps_ranked_matches_above_floor() {
    let candidates = vec![entry("a", 1, "answer", ""), entry("b", 2, "summary", ""), entry("c", 3, "transcript", "")];
    let scores = vec![Some(0.4f32.to_bits()), Some(0.8f32.to_bits()), None];
    let r = semantic_history(&candidates, &scores, 5, 0.5f32.to_bits());
    assert_eq!(ids(&r), vec!["b"]);
    let r = semantic_history(&candidates, &scores, 5, 0.1f32.to_bits());
    assert_eq!(ids(&r), vec!["b", "a"]);
}

#[test]
fn sections_come_in_fixed_order() {
    let notes = vec![
        KnowledgeEntry { id: "1".into(), content: "pinned".into(), created_at: 0, nominated: true },
        KnowledgeEntry { id: "2".into(), content: "hidden".into(), created_at: 0, nominated: false },
    ];
    let transcript = vec!["l1".to_string(), "l2".to_string(), "l3".to_string()];
    let history = HistorySource::Semantic(vec![entry("h", 1, "answer", "old answer")]);
    let r = assemble(&Some("Budget review".to_string()), &notes, &transcript, 2, &history);
    assert_eq!(
        r.context,
        "## Meeting Brief\nBudget review\n\n## Knowledge Base\n- pinned\n\n## Live Transcript\nl2\nl3\n\n## Relevant History\n[answer] old answer\n\n"
    );
    assert!(r.has_brief && r.has_knowledge && r.has_transcript && r.has_history && r.semantic);
}

#[test]
fn empty_sections_are_left_out() {
    let notes = vec![KnowledgeEntry { id: "2".into(), content: "hidden".into(), created_at: 0, nominated: false }];
    let r = assemble(&Some(String::new()), &notes, &vec!["l1".to_string()], 0, &HistorySource::Recency(vec![]));
    assert_eq!(r.context, "");
    assert!(!r.has_brief && !r.has_knowledge && !r.has_transcript && !r.has_history);
}

#[test]
fn semantic_tier_needs_query_and_key() {
    assert!(wants_semantic(&Some("q".to_string()), &Some("k".to_string())));
    assert!(!wants_semantic(&Some("q".to_string()), &None));
    assert!(!wants_semantic(&Some(String::new()), &Some("k".to_string())));
    assert!(!wants_semantic(&None, &Some("k".to_string())));
}
