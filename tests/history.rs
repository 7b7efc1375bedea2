use zipy::export::{chrono_lite_format, export_text};
use zipy::history::{chat_history_stats, latest_snapshot, select_history, snapshots_newest_first};
use zipy::records::{Caption, ChatHistoryEntry, ContextSnapshot};

fn entry(id: &str, ts: i64, kind: &str, content: &str) -> ChatHistoryEntry {
    ChatHistoryEntry {
        id: id.to_string(),
        timestamp: ts,
        entry_type: kind.to_string(),
        content: content.to_string(),
        metadata: None,
    }
}

fn snap(id: &str, created_at: i64) -> ContextSnapshot {
    ContextSnapshot {
        id: id.to_string(),
        created_at,
        summary: format!("summary {}", id),
        covered_until: created_at,
        original_token_count: 100,
        compressed_token_count: 10,
    }
}

fn ids(v: &[ChatHistoryEntry]) -> Vec<String> {
    v.iter().map(|e| e.id.clone()).collect()
}

#[test]
fn history_is_sorted_oldest_first_and_stable() {
    let entries = vec![entry("a", 30, "answer", "x"), entry("b", 10, "question", "y"), entry("c", 30, "summary", "z")];
    assert_eq!(ids(&select_history(&entries, None, None)), vec!["b", "a", "c"]);
}

#[test]
fn history_since_and_limit_keep_the_newest() {
    let entries = vec![
        entry("a", 5, "answer", ""),
        entry("b", 20, "answer", ""),
        entry("c", 10, "answer", ""),
        entry("d", 40, "answer", ""),
    ];
    assert_eq!(ids(&select_history(&entries, Some(10), None)), vec!["c", "b", "d"]);
    assert_eq!(ids(&select_history(&entries, Some(10), Some(2))), vec!["b", "d"]);
    assert_eq!(ids(&select_history(&entries, None, Some(10))), vec!["a", "c", "b", "d"]);
    assert_eq!(select_history(&entries, Some(100), None), vec![]);
}

#[test]
fn stats_count_bytes_and_kinds() {
    let entries = vec![
        entry("a", 1, "transcript", "hello"),
        entry("b", 2, "question", "héllo"),
        entry("c", 3, "answer", "abcdefgh"),
        entry("d", 4, "translation", "x"),
    ];
    let s = chat_history_stats(&entries);
    assert_eq!(s.total_entries, 4);
    assert_eq!(s.total_chars, 5 + 6 + 8 + 1);
    assert_eq!(s.estimated_tokens, 5);
    assert_eq!((s.transcript, s.question, s.answer, s.summary, s.idea), (1, 1, 1, 0, 0));
}

#[test]
fn stats_of_empty_history() {
    let s = chat_history_stats(&vec![]);
    assert_eq!((s.total_entries, s.total_chars, s.estimated_tokens), (0, 0, 0));
}

#[test]
fn latest_snapshot_is_the_first_of_the_newest() {
    assert_eq!(latest_snapshot(&vec![]), None);
    let snaps = vec![snap("a", 5), snap("b", 9), snap("c", 9), snap("d", 1)];
    assert_eq!(latest_snapshot(&snaps).unwrap().id, "b");
    let all: Vec<String> = snapshots_newest_first(&snaps).into_iter().map(|s| s.id).collect();
    assert_eq!(all, vec!["b", "c", "a", "d"]);
}

#[test]
fn clock_format_pads_fields() {
    assert_eq!(chrono_lite_format(0), "00:00:00");
    assert_eq!(chrono_lite_format(3_661_000), "01:01:01");
    assert_eq!(chrono_lite_format(86_399_999), "23:59:59");
    assert_eq!(chrono_lite_format(90_000_000), "01:00:00");
}

#[test]
fn clock_format_before_epoch_keeps_signs() {
    assert_eq!(chrono_lite_format(-1000), "00:00:-1");
    assert_eq!(chrono_lite_format(-3_725_000), "-1:-2:-5");
    assert_eq!(chrono_lite_format(-45_296_000), "-12:-34:-56");
}

#[test]
fn export_keeps_final_captions_only() {
    let captions = vec![
        Caption { id: "1".into(), text: "partial text".into(), caption_type: "partial".into(), timestamp: 1000 },
        Caption { id: "2".into(), text: "Hello there".into(), caption_type: "final".into(), timestamp: 3_661_000 },
        Caption { id: "3".into(), text: "Bye".into(), caption_type: "final".into(), timestamp: 7_322_000 },
    ];
    assert_eq!(export_text(&captions), "# Zipy Export\n\n[01:01:01] Hello there\n[02:02:02] Bye\n");
    assert_eq!(export_text(&vec![]), "# Zipy Export\n\n");
}

#[test]
fn clock_format_at_the_extremes() {
    assert_eq!(chrono_lite_format(i64::MIN), "-7:-12:-55");
    assert_eq!(chrono_lite_format(i64::MAX), "07:12:55");
}
