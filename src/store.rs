//! The persistent store: an embedded SQLite database reached through
//! rusqlite. This module creates the schema and migrates the legacy flat-file
//! records. What SQLite does with a statement is its own affair: a store
//! keeps, as ghost state, the log of the statements handed to SQLite with
//! their parameters and whether each succeeded, and the contracts here are
//! stated over that log.
use vstd::prelude::*;
use crate::records::{ChatHistoryEntry, ContextSnapshot, IdeaEntry, KnowledgeEntry, MigrationStats};

verus! {

#[verifier::external_type_specification]
#[verifier::external_body]
pub struct ExConnection(rusqlite::Connection);

#[verifier::external_type_specification]
#[verifier::external_body]
pub struct ExSqlError(rusqlite::Error);

/// A value bound to a positional statement parameter.
#[derive(Debug, Clone, PartialEq)]
pub enum SqlValue {
    Null,
    Integer(i64),
    Text(String),
}

/// One statement handed to SQLite: its text, its parameters bound to `?1`,
/// `?2`, ... in order, and whether it succeeded.
pub struct Executed {
    pub sql: Seq<char>,
    pub params: Seq<SqlValue>,
    pub ok: bool,
}

/// A database connection with the log of the statements run through it.
pub struct Store {
    pub conn: rusqlite::Connection,
    pub log: Ghost<Seq<Executed>>,
}

impl Store {
    /// A store over `conn` with nothing run yet.
    pub fn new(conn: rusqlite::Connection) -> (r: Self)
        ensures
            r.log@ == Seq::<Executed>::empty(),
    {
        Store { conn, log: Ghost(Seq::empty()) }
    }
}

/// Relies on rusqlite's `Connection::execute`: prepares `sql`, binds `params`
/// to `?1`, `?2`, ... in order and runs it; the call is recorded in the log
/// with whether it succeeded. Nothing is assumed of what SQLite decides.
#[verifier::external_body]
fn execute(db: &mut Store, sql: &str, params: Vec<SqlValue>) -> (r: Result<usize, rusqlite::Error>)
    ensures
        final(db).log@ == old(db).log@.push(Executed { sql: sql@, params: params@, ok: r is Ok }),
{
    let values: Vec<rusqlite::types::Value> = params.into_iter().map(|v| match v {
        SqlValue::Null => rusqlite::types::Value::Null,
        SqlValue::Integer(i) => rusqlite::types::Value::Integer(i),
        SqlValue::Text(s) => rusqlite::types::Value::Text(s),
    }).collect();
    db.conn.execute(sql, rusqlite::params_from_iter(values))
}

pub const PRAGMA_FOREIGN_KEYS: &'static str = "PRAGMA foreign_keys = ON";

pub const CREATE_CHAT_ENTRIES: &'static str = "CREATE TABLE IF NOT EXISTS chat_entries (
            id TEXT PRIMARY KEY,
            timestamp INTEGER NOT NULL,
            entry_type TEXT NOT NULL,
            content TEXT NOT NULL,
            metadata TEXT,
            embedding BLOB,
            session_id TEXT,
            parent_id TEXT,
            created_at INTEGER NOT NULL DEFAULT (strftime('%s', 'now'))
        )";

pub const CREATE_TIMESTAMP_INDEX: &'static str = "CREATE INDEX IF NOT EXISTS idx_chat_entries_timestamp ON chat_entries(timestamp DESC)";

pub const CREATE_TYPE_INDEX: &'static str = "CREATE INDEX IF NOT EXISTS idx_chat_entries_type ON chat_entries(entry_type)";

pub const CREATE_SESSION_INDEX: &'static str = "CREATE INDEX IF NOT EXISTS idx_chat_entries_session ON chat_entries(session_id)";

pub const CREATE_KNOWLEDGE_ENTRIES: &'static str = "CREATE TABLE IF NOT EXISTS knowledge_entries (
            id TEXT PRIMARY KEY,
            content TEXT NOT NULL,
            created_at INTEGER NOT NULL,
            nominated INTEGER NOT NULL DEFAULT 1,
            embedding BLOB
        )";

pub const CREATE_CONTEXT_SNAPSHOTS: &'static str = "CREATE TABLE IF NOT EXISTS context_snapshots (
            id TEXT PRIMARY KEY,
            created_at INTEGER NOT NULL,
            summary TEXT NOT NULL,
            covered_until INTEGER NOT NULL,
            original_token_count INTEGER NOT NULL,
            compressed_token_count INTEGER NOT NULL
        )";

pub const CREATE_IDEAS: &'static str = "CREATE TABLE IF NOT EXISTS ideas (
            id TEXT PRIMARY KEY,
            title TEXT NOT NULL,
            raw_content TEXT NOT NULL,
            corrected_script TEXT NOT NULL,
            created_at INTEGER NOT NULL
        )";

pub const INSERT_CHAT_ENTRY: &'static str = "INSERT OR IGNORE INTO chat_entries (id, timestamp, entry_type, content, metadata)
         VALUES (?1, ?2, ?3, ?4, ?5)";

pub const INSERT_IDEA: &'static str = "INSERT OR IGNORE INTO ideas (id, title, raw_content, corrected_script, created_at)
         VALUES (?1, ?2, ?3, ?4, ?5)";

pub const INSERT_KNOWLEDGE_ENTRY: &'static str = "INSERT OR IGNORE INTO knowledge_entries (id, content, created_at, nominated)
         VALUES (?1, ?2, ?3, ?4)";

pub const INSERT_CONTEXT_SNAPSHOT: &'static str = "INSERT OR IGNORE INTO context_snapshots (id, created_at, summary, covered_until, original_token_count, compressed_token_count)
         VALUES (?1, ?2, ?3, ?4, ?5, ?6)";

/// The schema, in the order it is created: foreign-key enforcement, the
/// interaction table and its indexes on timestamp, kind and session, then the
/// knowledge, snapshot and idea tables. Every statement creates only what is
/// absent.
pub open spec fn schema() -> Seq<Seq<char>> {
    seq![
        PRAGMA_FOREIGN_KEYS@,
        CREATE_CHAT_ENTRIES@,
        CREATE_TIMESTAMP_INDEX@,
        CREATE_TYPE_INDEX@,
        CREATE_SESSION_INDEX@,
        CREATE_KNOWLEDGE_ENTRIES@,
        CREATE_CONTEXT_SNAPSHOTS@,
        CREATE_IDEAS@,
    ]
}

fn schema_statement(k: usize) -> (r: &'static str)
    requires
        k < 8,
    ensures
        r@ == schema()[k as int],
{
    if k == 0 {
        PRAGMA_FOREIGN_KEYS
    } else if k == 1 {
        CREATE_CHAT_ENTRIES
    } else if k == 2 {
        CREATE_TIMESTAMP_INDEX
    } else if k == 3 {
        CREATE_TYPE_INDEX
    } else if k == 4 {
        CREATE_SESSION_INDEX
    } else if k == 5 {
        CREATE_KNOWLEDGE_ENTRIES
    } else if k == 6 {
        CREATE_CONTEXT_SNAPSHOTS
    } else {
        CREATE_IDEAS
    }
}

/// The part of `log` added after its first `from` entries.
pub open spec fn added(log: Seq<Executed>, from: int) -> Seq<Executed> {
    log.subrange(from, log.len() as int)
}

/// Whether `run` is the schema statements run in order, without parameters,
/// up to and including the first that failed.
pub open spec fn schema_run(run: Seq<Executed>) -> bool {
    &&& 1 <= run.len() <= schema().len()
    &&& forall|k: int|
        0 <= k < run.len() ==> run[k].sql == schema()[k] && run[k].params.len() == 0
    &&& forall|k: int| 0 <= k < run.len() - 1 ==> run[k].ok
    &&& (run.len() < schema().len() ==> !run[run.len() - 1].ok)
}

/// Creates the four record tables and the indexes of the interaction table,
/// each only where it is absent, after turning on foreign-key enforcement.
/// Stops at the first statement that fails and hands back its error; succeeds
/// when every statement succeeded.
pub fn init_schema(db: &mut Store) -> (r: Result<(), rusqlite::Error>)
    ensures
        final(db).log@.len() > old(db).log@.len(),
        final(db).log@.subrange(0, old(db).log@.len() as int) == old(db).log@,
        schema_run(added(final(db).log@, old(db).log@.len() as int)),
        r is Ok <==> (added(final(db).log@, old(db).log@.len() as int).len() == schema().len()
            && added(final(db).log@, old(db).log@.len() as int).last().ok),
{
    let ghost start = db.log@;
    let ghost o = start.len() as int;
    let mut k: usize = 0;
    while k < 8
        invariant
            k <= 8,
            o == start.len(),
            start == old(db).log@,
            db.log@.len() == o + k,
            db.log@.subrange(0, o) == start,
            forall|j: int|
                0 <= j < k ==> db.log@[o + j].sql == schema()[j] && db.log@[o + j].params.len() == 0
                    && db.log@[o + j].ok,
        decreases 8 - k,
    {
        let ghost before = db.log@;
        let result = execute(db, schema_statement(k), Vec::new());
        proof {
            assert(db.log@.subrange(0, o) =~= before.subrange(0, o));
            assert forall|j: int| 0 <= j < k implies #[trigger] db.log@[o + j] == before[o + j] by {}
        }
        match result {
            Err(e) => {
                proof {
                    let run = added(db.log@, o);
                    assert(run.len() == k + 1);
                    assert forall|j: int| 0 <= j < run.len() implies run[j] == db.log@[o + j] by {}
                }
                return Err(e);
            },
            Ok(_) => {},
        }
        k = k + 1;
    }
    proof {
        let run = added(db.log@, o);
        assert forall|j: int| 0 <= j < run.len() implies run[j] == db.log@[o + j] by {}
    }
    Ok(())
}

/// The parameters of an interaction row: id, timestamp, kind, content and
/// the metadata text (`NULL` when absent).
pub open spec fn chat_params(e: ChatHistoryEntry) -> Seq<SqlValue> {
    seq![
        SqlValue::Text(e.id),
        SqlValue::Integer(e.timestamp),
        SqlValue::Text(e.entry_type),
        SqlValue::Text(e.content),
        match e.metadata {
            Some(m) => SqlValue::Text(m),
            None => SqlValue::Null,
        },
    ]
}

/// The parameters of an idea row: id, title, raw content, corrected script
/// and creation time.
pub open spec fn idea_params_spec(i: IdeaEntry) -> Seq<SqlValue> {
    seq![
        SqlValue::Text(i.id),
        SqlValue::Text(i.title),
        SqlValue::Text(i.raw_content),
        SqlValue::Text(i.corrected_script),
        SqlValue::Integer(i.created_at),
    ]
}

/// The parameters of a knowledge row: id, content, creation time and the
/// nomination flag as 1 or 0.
pub open spec fn knowledge_params_spec(e: KnowledgeEntry) -> Seq<SqlValue> {
    seq![
        SqlValue::Text(e.id),
        SqlValue::Text(e.content),
        SqlValue::Integer(e.created_at),
        SqlValue::Integer(if e.nominated { 1 } else { 0 }),
    ]
}

/// The parameters of a snapshot row: id, creation time, summary, covered-until
/// time and the two token counts.
pub open spec fn snapshot_params_spec(s: ContextSnapshot) -> Seq<SqlValue> {
    seq![
        SqlValue::Text(s.id),
        SqlValue::Integer(s.created_at),
        SqlValue::Text(s.summary),
        SqlValue::Integer(s.covered_until),
        SqlValue::Integer(s.original_token_count),
        SqlValue::Integer(s.compressed_token_count),
    ]
}

/// Builds the parameters of an interaction row.
pub fn chat_entry_params(entry: &ChatHistoryEntry) -> (r: Vec<SqlValue>)
    ensures
        r@ == chat_params(*entry),
{
    let mut r: Vec<SqlValue> = Vec::new();
    r.push(SqlValue::Text(entry.id.clone()));
    r.push(SqlValue::Integer(entry.timestamp));
    r.push(SqlValue::Text(entry.entry_type.clone()));
    r.push(SqlValue::Text(entry.content.clone()));
    match &entry.metadata {
        Some(m) => r.push(SqlValue::Text(m.clone())),
        None => r.push(SqlValue::Null),
    }
    assert(r@ =~= chat_params(*entry));
    r
}

/// Builds the parameters of an idea row.
pub fn idea_params(idea: &IdeaEntry) -> (r: Vec<SqlValue>)
    ensures
        r@ == idea_params_spec(*idea),
{
    let mut r: Vec<SqlValue> = Vec::new();
    r.push(SqlValue::Text(idea.id.clone()));
    r.push(SqlValue::Text(idea.title.clone()));
    r.push(SqlValue::Text(idea.raw_content.clone()));
    r.push(SqlValue::Text(idea.corrected_script.clone()));
    r.push(SqlValue::Integer(idea.created_at));
    assert(r@ =~= idea_params_spec(*idea));
    r
}

/// Builds the parameters of a knowledge row.
pub fn knowledge_params(entry: &KnowledgeEntry) -> (r: Vec<SqlValue>)
    ensures
        r@ == knowledge_params_spec(*entry),
{
    let mut r: Vec<SqlValue> = Vec::new();
    r.push(SqlValue::Text(entry.id.clone()));
    r.push(SqlValue::Text(entry.content.clone()));
    r.push(SqlValue::Integer(entry.created_at));
    r.push(SqlValue::Integer(if entry.nominated { 1 } else { 0 }));
    assert(r@ =~= knowledge_params_spec(*entry));
    r
}

/// Builds the parameters of a snapshot row.
pub fn snapshot_params(snapshot: &ContextSnapshot) -> (r: Vec<SqlValue>)
    ensures
        r@ == snapshot_params_spec(*snapshot),
{
    let mut r: Vec<SqlValue> = Vec::new();
    r.push(SqlValue::Text(snapshot.id.clone()));
    r.push(SqlValue::Integer(snapshot.created_at));
    r.push(SqlValue::Text(snapshot.summary.clone()));
    r.push(SqlValue::Integer(snapshot.covered_until));
    r.push(SqlValue::Integer(snapshot.original_token_count));
    r.push(SqlValue::Integer(snapshot.compressed_token_count));
    assert(r@ =~= snapshot_params_spec(*snapshot));
    r
}

/// Inserts an interaction row unless one with the same id exists: hands
/// SQLite the insert-or-ignore statement with the entry's parameters.
pub fn migrate_chat_entry(db: &mut Store, entry: &ChatHistoryEntry) -> (r: Result<(), rusqlite::Error>)
    ensures
        final(db).log@ == old(db).log@.push(
            Executed { sql: INSERT_CHAT_ENTRY@, params: chat_params(*entry), ok: r is Ok },
        ),
{
    match execute(db, INSERT_CHAT_ENTRY, chat_entry_params(entry)) {
        Ok(_) => Ok(()),
        Err(e) => Err(e),
    }
}

/// Inserts an idea row unless one with the same id exists.
pub fn migrate_idea(db: &mut Store, idea: &IdeaEntry) -> (r: Result<(), rusqlite::Error>)
    ensures
        final(db).log@ == old(db).log@.push(
            Executed { sql: INSERT_IDEA@, params: idea_params_spec(*idea), ok: r is Ok },
        ),
{
    match execute(db, INSERT_IDEA, idea_params(idea)) {
        Ok(_) => Ok(()),
        Err(e) => Err(e),
    }
}

/// Inserts a knowledge row unless one with the same id exists.
pub fn migrate_knowledge_entry(db: &mut Store, entry: &KnowledgeEntry) -> (r: Result<(), rusqlite::Error>)
    ensures
        final(db).log@ == old(db).log@.push(
            Executed { sql: INSERT_KNOWLEDGE_ENTRY@, params: knowledge_params_spec(*entry), ok: r is Ok },
        ),
{
    match execute(db, INSERT_KNOWLEDGE_ENTRY, knowledge_params(entry)) {
        Ok(_) => Ok(()),
        Err(e) => Err(e),
    }
}

/// Inserts a snapshot row unless one with the same id exists.
pub fn migrate_context_snapshot(db: &mut Store, snapshot: &ContextSnapshot) -> (r: Result<(), rusqlite::Error>)
    ensures
        final(db).log@ == old(db).log@.push(
            Executed { sql: INSERT_CONTEXT_SNAPSHOT@, params: snapshot_params_spec(*snapshot), ok: r is Ok },
        ),
{
    match execute(db, INSERT_CONTEXT_SNAPSHOT, snapshot_params(snapshot)) {
        Ok(_) => Ok(()),
        Err(e) => Err(e),
    }
}

/// The number of statements of `run` that succeeded.
pub open spec fn ok_count(run: Seq<Executed>) -> nat
    decreases run.len(),
{
    if run.len() == 0 {
        0
    } else {
        ok_count(run.drop_last()) + if run.last().ok {
            1nat
        } else {
            0nat
        }
    }
}

/// Whether `run` is one insert of each of `records`, in order.
pub open spec fn chat_inserts(run: Seq<Executed>, records: Seq<ChatHistoryEntry>) -> bool {
    &&& run.len() == records.len()
    &&& forall|i: int| 0 <= i < run.len() ==> run[i].sql == INSERT_CHAT_ENTRY@ && run[i].params == chat_params(records[i])
}

fn migrate_chat_entries(db: &mut Store, records: &Vec<ChatHistoryEntry>) -> (r: usize)
    ensures
        final(db).log@.len() == old(db).log@.len() + records@.len(),
        final(db).log@.subrange(0, old(db).log@.len() as int) == old(db).log@,
        chat_inserts(added(final(db).log@, old(db).log@.len() as int), records@),
        r == ok_count(added(final(db).log@, old(db).log@.len() as int)),
{
    let ghost start = db.log@;
    let ghost o = start.len() as int;
    let mut count: usize = 0;
    let mut i: usize = 0;
    while i < records.len()
        invariant
            o == start.len(),
            start == old(db).log@,
            i <= records@.len(),
            count <= i,
            db.log@.len() == o + i,
            db.log@.subrange(0, o) == start,
            chat_inserts(db.log@.subrange(o, o + i), records@.subrange(0, i as int)),
            count == ok_count(db.log@.subrange(o, o + i)),
        decreases records@.len() - i,
    {
        let ghost before = db.log@;
        let res = migrate_chat_entry(db, &records[i]);
        proof {
            assert(db.log@.subrange(0, o) =~= before.subrange(0, o));
            assert(db.log@.subrange(o, o + i + 1) =~= before.subrange(o, o + i).push(db.log@.last()));
            assert(records@.subrange(0, i + 1) =~= records@.subrange(0, i as int).push(records@[i as int]));
            assert(db.log@.subrange(o, o + i + 1).drop_last() =~= before.subrange(o, o + i));
        }
        if res.is_ok() {
            count = count + 1;
        }
        i = i + 1;
    }
    proof {
        assert(added(db.log@, o) =~= db.log@.subrange(o, o + i));
        assert(records@.subrange(0, i as int) =~= records@);
    }
    count
}

/// Whether `run` is one insert of each of `records`, in order.
pub open spec fn idea_inserts(run: Seq<Executed>, records: Seq<IdeaEntry>) -> bool {
    &&& run.len() == records.len()
    &&& forall|i: int| 0 <= i < run.len() ==> run[i].sql == INSERT_IDEA@ && run[i].params == idea_params_spec(records[i])
}

fn migrate_ideas(db: &mut Store, records: &Vec<IdeaEntry>) -> (r: usize)
    ensures
        final(db).log@.len() == old(db).log@.len() + records@.len(),
        final(db).log@.subrange(0, old(db).log@.len() as int) == old(db).log@,
        idea_inserts(added(final(db).log@, old(db).log@.len() as int), records@),
        r == ok_count(added(final(db).log@, old(db).log@.len() as int)),
{
    let ghost start = db.log@;
    let ghost o = start.len() as int;
    let mut count: usize = 0;
    let mut i: usize = 0;
    while i < records.len()
        invariant
            o == start.len(),
            start == old(db).log@,
            i <= records@.len(),
            count <= i,
            db.log@.len() == o + i,
            db.log@.subrange(0, o) == start,
            idea_inserts(db.log@.subrange(o, o + i), records@.subrange(0, i as int)),
            count == ok_count(db.log@.subrange(o, o + i)),
        decreases records@.len() - i,
    {
        let ghost before = db.log@;
        let res = migrate_idea(db, &records[i]);
        proof {
            assert(db.log@.subrange(0, o) =~= before.subrange(0, o));
            assert(db.log@.subrange(o, o + i + 1) =~= before.subrange(o, o + i).push(db.log@.last()));
            assert(records@.subrange(0, i + 1) =~= records@.subrange(0, i as int).push(records@[i as int]));
            assert(db.log@.subrange(o, o + i + 1).drop_last() =~= before.subrange(o, o + i));
        }
        if res.is_ok() {
            count = count + 1;
        }
        i = i + 1;
    }
    proof {
        assert(added(db.log@, o) =~= db.log@.subrange(o, o + i));
        assert(records@.subrange(0, i as int) =~= records@);
    }
    count
}

/// Whether `run` is one insert of each of `records`, in order.
pub open spec fn knowledge_inserts(run: Seq<Executed>, records: Seq<KnowledgeEntry>) -> bool {
    &&& run.len() == records.len()
    &&& forall|i: int| 0 <= i < run.len() ==> run[i].sql == INSERT_KNOWLEDGE_ENTRY@ && run[i].params == knowledge_params_spec(records[i])
}

fn migrate_knowledge_entries(db: &mut Store, records: &Vec<KnowledgeEntry>) -> (r: usize)
    ensures
        final(db).log@.len() == old(db).log@.len() + records@.len(),
        final(db).log@.subrange(0, old(db).log@.len() as int) == old(db).log@,
        knowledge_inserts(added(final(db).log@, old(db).log@.len() as int), records@),
        r == ok_count(added(final(db).log@, old(db).log@.len() as int)),
{
    let ghost start = db.log@;
    let ghost o = start.len() as int;
    let mut count: usize = 0;
    let mut i: usize = 0;
    while i < records.len()
        invariant
            o == start.len(),
            start == old(db).log@,
            i <= records@.len(),
            count <= i,
            db.log@.len() == o + i,
            db.log@.subrange(0, o) == start,
            knowledge_inserts(db.log@.subrange(o, o + i), records@.subrange(0, i as int)),
            count == ok_count(db.log@.subrange(o, o + i)),
        decreases records@.len() - i,
    {
        let ghost before = db.log@;
        let res = migrate_knowledge_entry(db, &records[i]);
        proof {
            assert(db.log@.subrange(0, o) =~= before.subrange(0, o));
            assert(db.log@.subrange(o, o + i + 1) =~= before.subrange(o, o + i).push(db.log@.last()));
            assert(records@.subrange(0, i + 1) =~= records@.subrange(0, i as int).push(records@[i as int]));
            assert(db.log@.subrange(o, o + i + 1).drop_last() =~= before.subrange(o, o + i));
        }
        if res.is_ok() {
            count = count + 1;
        }
        i = i + 1;
    }
    proof {
        assert(added(db.log@, o) =~= db.log@.subrange(o, o + i));
        assert(records@.subrange(0, i as int) =~= records@);
    }
    count
}

/// Whether `run` is one insert of each of `records`, in order.
pub open spec fn snapshot_inserts(run: Seq<Executed>, records: Seq<ContextSnapshot>) -> bool {
    &&& run.len() == records.len()
    &&& forall|i: int| 0 <= i < run.len() ==> run[i].sql == INSERT_CONTEXT_SNAPSHOT@ && run[i].params == snapshot_params_spec(records[i])
}

fn migrate_context_snapshots(db: &mut Store, records: &Vec<ContextSnapshot>) -> (r: usize)
    ensures
        final(db).log@.len() == old(db).log@.len() + records@.len(),
        final(db).log@.subrange(0, old(db).log@.len() as int) == old(db).log@,
        snapshot_inserts(added(final(db).log@, old(db).log@.len() as int), records@),
        r == ok_count(added(final(db).log@, old(db).log@.len() as int)),
{
    let ghost start = db.log@;
    let ghost o = start.len() as int;
    let mut count: usize = 0;
    let mut i: usize = 0;
    while i < records.len()
        invariant
            o == start.len(),
            start == old(db).log@,
            i <= records@.len(),
            count <= i,
            db.log@.len() == o + i,
            db.log@.subrange(0, o) == start,
            snapshot_inserts(db.log@.subrange(o, o + i), records@.subrange(0, i as int)),
            count == ok_count(db.log@.subrange(o, o + i)),
        decreases records@.len() - i,
    {
        let ghost before = db.log@;
        let res = migrate_context_snapshot(db, &records[i]);
        proof {
            assert(db.log@.subrange(0, o) =~= before.subrange(0, o));
            assert(db.log@.subrange(o, o + i + 1) =~= before.subrange(o, o + i).push(db.log@.last()));
            assert(records@.subrange(0, i + 1) =~= records@.subrange(0, i as int).push(records@[i as int]));
            assert(db.log@.subrange(o, o + i + 1).drop_last() =~= before.subrange(o, o + i));
        }
        if res.is_ok() {
            count = count + 1;
        }
        i = i + 1;
    }
    proof {
        assert(added(db.log@, o) =~= db.log@.subrange(o, o + i));
        assert(records@.subrange(0, i as int) =~= records@);
    }
    count
}

proof fn lemma_prefix_kept(big: Seq<Executed>, small: Seq<Executed>, from: int, to: int)
    requires
        small.len() <= big.len(),
        big.subrange(0, small.len() as int) == small,
        0 <= from <= to <= small.len(),
    ensures
        big.subrange(from, to) == small.subrange(from, to),
{
    assert forall|k: int| 0 <= k < to - from implies big.subrange(from, to)[k] == small.subrange(
        from,
        to,
    )[k] by {
        assert(big.subrange(0, small.len() as int)[from + k] == big[from + k]);
    }
    assert(big.subrange(from, to) =~= small.subrange(from, to));
}

/// The legacy flat-file collections that could be read and parsed; `None`
/// for one that is absent or malformed, which is then skipped.
pub struct LegacyRecords {
    pub chat_entries: Option<Vec<ChatHistoryEntry>>,
    pub ideas: Option<Vec<IdeaEntry>>,
    pub knowledge: Option<Vec<KnowledgeEntry>>,
    pub snapshots: Option<Vec<ContextSnapshot>>,
}

/// The records of a collection, none when it is absent.
pub open spec fn records_of<T>(c: Option<Vec<T>>) -> Seq<T> {
    match c {
        Some(v) => v@,
        None => Seq::empty(),
    }
}

/// Migrates every legacy record: hands SQLite one insert-or-ignore statement
/// per record, keyed by id, in the order interactions, ideas, knowledge notes,
/// snapshots, each collection in its own order. A record whose insert fails is
/// skipped and the later ones are still tried; an absent collection adds
/// nothing. Each count is the number of inserts of its collection that
/// succeeded.
pub fn migrate_legacy(db: &mut Store, legacy: &LegacyRecords) -> (r: MigrationStats)
    ensures
        ({
            let o = old(db).log@.len() as int;
            let a = o + records_of(legacy.chat_entries).len();
            let b = a + records_of(legacy.ideas).len();
            let c = b + records_of(legacy.knowledge).len();
            let d = c + records_of(legacy.snapshots).len();
            let log = final(db).log@;
            &&& log.len() == d
            &&& log.subrange(0, o) == old(db).log@
            &&& chat_inserts(log.subrange(o, a), records_of(legacy.chat_entries))
            &&& idea_inserts(log.subrange(a, b), records_of(legacy.ideas))
            &&& knowledge_inserts(log.subrange(b, c), records_of(legacy.knowledge))
            &&& snapshot_inserts(log.subrange(c, d), records_of(legacy.snapshots))
            &&& r.chat_entries_migrated == ok_count(log.subrange(o, a))
            &&& r.ideas_migrated == ok_count(log.subrange(a, b))
            &&& r.knowledge_migrated == ok_count(log.subrange(b, c))
            &&& r.snapshots_migrated == ok_count(log.subrange(c, d))
        }),
{
    let ghost l0 = db.log@;
    let chat_entries_migrated = match &legacy.chat_entries {
        Some(v) => migrate_chat_entries(db, v),
        None => 0,
    };
    let ghost l1 = db.log@;
    let ideas_migrated = match &legacy.ideas {
        Some(v) => migrate_ideas(db, v),
        None => 0,
    };
    let ghost l2 = db.log@;
    let knowledge_migrated = match &legacy.knowledge {
        Some(v) => migrate_knowledge_entries(db, v),
        None => 0,
    };
    let ghost l3 = db.log@;
    let snapshots_migrated = match &legacy.snapshots {
        Some(v) => migrate_context_snapshots(db, v),
        None => 0,
    };
    proof {
        let l4 = db.log@;
        let o = l0.len() as int;
        let a = l1.len() as int;
        let b = l2.len() as int;
        let c = l3.len() as int;
        let d = l4.len() as int;
        assert(l1.subrange(0, o) == l0 && l2.subrange(0, a) == l1 && l3.subrange(0, b) == l2
            && l4.subrange(0, c) == l3) by {
            if legacy.chat_entries is None {
                assert(l1.subrange(0, o) =~= l0);
            }
            if legacy.ideas is None {
                assert(l2.subrange(0, a) =~= l1);
            }
            if legacy.knowledge is None {
                assert(l3.subrange(0, b) =~= l2);
            }
            if legacy.snapshots is None {
                assert(l4.subrange(0, c) =~= l3);
            }
        }
        assert(l1.subrange(o, a) == added(l1, o));
        assert(l2.subrange(a, b) == added(l2, a));
        assert(l3.subrange(b, c) == added(l3, b));
        assert(l4.subrange(c, d) == added(l4, c));
        lemma_prefix_kept(l2, l1, o, a);
        lemma_prefix_kept(l3, l2, o, a);
        lemma_prefix_kept(l4, l3, o, a);
        lemma_prefix_kept(l3, l2, a, b);
        lemma_prefix_kept(l4, l3, a, b);
        lemma_prefix_kept(l4, l3, b, c);
        lemma_prefix_kept(l2, l1, 0, o);
        lemma_prefix_kept(l3, l2, 0, o);
        lemma_prefix_kept(l4, l3, 0, o);
    }
    MigrationStats { chat_entries_migrated, ideas_migrated, knowledge_migrated, snapshots_migrated }
}

} // verus!
