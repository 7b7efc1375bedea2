use rusqlite::Connection;
use zipy::records::{ChatHistoryEntry, ContextSnapshot, IdeaEntry, KnowledgeEntry};
use zipy::store::{
    chat_entry_params, init_schema, knowledge_params, migrate_idea, migrate_legacy, LegacyRecords, SqlValue, Store,
};

fn count(conn: &Connection, table: &str) -> i64 {
    conn.query_row(&format!("SELECT COUNT(*) FROM {}", table), [], |r| r.get(0)).unwrap()
}

fn legacy() -> LegacyRecords {
    LegacyRecords {
        chat_entries: Some(vec![
            ChatHistoryEntry { id: "c1".into(), timestamp: 1, entry_type: "answer".into(), content: "a".into(), metadata: Some("{\"k\":1}".into()) },
            ChatHistoryEntry { id: "c2".into(), timestamp: 2, entry_type: "question".into(), content: "q".into(), metadata: None },
            ChatHistoryEntry { id: "c1".into(), timestamp: 3, entry_type: "answer".into(), content: "dup".into(), metadata: None },
        ]),
        ideas: None,
        knowledge: Some(vec![KnowledgeEntry { id: "k1".into(), content: "note".into(), created_at: 5, nominated: false }]),
        snapshots: Some(vec![ContextSnapshot {
            id: "s1".into(),
            created_at: 7,
            summary: "sum".into(),
            covered_until: 6,
            original_token_count: 100,
            compressed_token_count: 20,
        }]),
    }
}

#[test]
fn migration_twice_adds_no_rows() {
    let mut db = Store::new(Connection::open_in_memory().unwrap());
    init_schema(&mut db).unwrap();
    let records = legacy();
    let first = migrate_legacy(&mut db, &records);
    assert_eq!(first.chat_entries_migrated, 3);
    assert_eq!(first.ideas_migrated, 0);
    assert_eq!(first.knowledge_migrated, 1);
    assert_eq!(first.snapshots_migrated, 1);
    let rows = (count(&db.conn, "chat_entries"), count(&db.conn, "knowledge_entries"), count(&db.conn, "context_snapshots"));
    assert_eq!(rows, (2, 1, 1));
    migrate_legacy(&mut db, &records);
    let again = (count(&db.conn, "chat_entries"), count(&db.conn, "knowledge_entries"), count(&db.conn, "context_snapshots"));
    assert_eq!(again, rows);
    let content: String = db.conn.query_row("SELECT content FROM chat_entries WHERE id = 'c1'", [], |r| r.get(0)).unwrap();
    assert_eq!(content, "a");
}

#[test]
fn schema_creation_is_idempotent() {
    let mut db = Store::new(Connection::open_in_memory().unwrap());
    init_schema(&mut db).unwrap();
    init_schema(&mut db).unwrap();
    assert_eq!(count(&db.conn, "ideas"), 0);
    let indexes: i64 = db
        .conn
        .query_row("SELECT COUNT(*) FROM sqlite_master WHERE type = 'index' AND name LIKE 'idx_chat_entries_%'", [], |r| r.get(0))
        .unwrap();
    assert_eq!(indexes, 3);
    let fk: i64 = db.conn.query_row("PRAGMA foreign_keys", [], |r| r.get(0)).unwrap();
    assert_eq!(fk, 1);
}

#[test]
fn migration_skips_rows_that_fail() {
    let mut db = Store::new(Connection::open_in_memory().unwrap());
    let records = LegacyRecords {
        chat_entries: None,
        ideas: Some(vec![IdeaEntry { id: "i".into(), title: "t".into(), raw_content: "r".into(), corrected_script: "c".into(), created_at: 1 }]),
        knowledge: None,
        snapshots: None,
    };
    let stats = migrate_legacy(&mut db, &records);
    assert_eq!(stats.ideas_migrated, 0);
}

#[test]
fn row_parameters_follow_column_order() {
    let e = ChatHistoryEntry { id: "x".into(), timestamp: 9, entry_type: "idea".into(), content: "c".into(), metadata: None };
    assert_eq!(
        chat_entry_params(&e),
        vec![SqlValue::Text("x".into()), SqlValue::Integer(9), SqlValue::Text("idea".into()), SqlValue::Text("c".into()), SqlValue::Null]
    );
    let k = KnowledgeEntry { id: "k".into(), content: "n".into(), created_at: 4, nominated: true };
    assert_eq!(knowledge_params(&k)[3], SqlValue::Integer(1));
}

#[test]
fn existing_row_is_not_overwritten() {
    let mut db = Store::new(Connection::open_in_memory().unwrap());
    init_schema(&mut db).unwrap();
    let first = IdeaEntry { id: "i".into(), title: "first".into(), raw_content: "r".into(), corrected_script: "c".into(), created_at: 1 };
    let second = IdeaEntry { title: "second".into(), ..first.clone() };
    migrate_idea(&mut db, &first).unwrap();
    migrate_idea(&mut db, &second).unwrap();
    assert_eq!(count(&db.conn, "ideas"), 1);
    let title: String = db.conn.query_row("SELECT title FROM ideas WHERE id = 'i'", [], |r| r.get(0)).unwrap();
    assert_eq!(title, "first");
}

#[test]
fn failed_inserts_do_not_stop_later_collections() {
    let mut db = Store::new(Connection::open_in_memory().unwrap());
    init_schema(&mut db).unwrap();
    db.conn.execute("DROP TABLE ideas", []).unwrap();
    let mut records = legacy();
    records.ideas = Some(vec![IdeaEntry { id: "i".into(), title: "t".into(), raw_content: "r".into(), corrected_script: "c".into(), created_at: 1 }]);
    let stats = migrate_legacy(&mut db, &records);
    assert_eq!((stats.chat_entries_migrated, stats.ideas_migrated, stats.knowledge_migrated, stats.snapshots_migrated), (3, 0, 1, 1));
    assert_eq!(count(&db.conn, "context_snapshots"), 1);
}
