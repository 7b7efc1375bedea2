//! Plain record types shared by the store, the history views and the
//! context assembler.
use vstd::prelude::*;

verus! {

/// One caption line received from the captioning process.
#[derive(Debug, Clone, PartialEq)]
pub struct Caption {
    pub id: String,
    pub text: String,
    /// `"partial"` or `"final"`.
    pub caption_type: String,
    /// Milliseconds since the epoch.
    pub timestamp: i64,
}

/// A knowledge note; only nominated notes are eligible for assembled context.
#[derive(Debug, Clone, PartialEq)]
pub struct KnowledgeEntry {
    pub id: String,
    pub content: String,
    pub created_at: i64,
    pub nominated: bool,
}

/// An entry of the deprecated ideas collection.
#[derive(Debug, Clone, PartialEq)]
pub struct IdeaEntry {
    pub id: String,
    pub title: String,
    pub raw_content: String,
    pub corrected_script: String,
    pub created_at: i64,
}

/// One interaction record. `entry_type` is one of `transcript`, `question`,
/// `answer`, `summary`, `idea`, `translation`; `metadata` holds the
/// serialized JSON text of the optional metadata document.
#[derive(Debug, Clone, PartialEq)]
pub struct ChatHistoryEntry {
    pub id: String,
    pub timestamp: i64,
    pub entry_type: String,
    pub content: String,
    pub metadata: Option<String>,
}

/// A compressed summary of older context.
#[derive(Debug, Clone, PartialEq)]
pub struct ContextSnapshot {
    pub id: String,
    pub created_at: i64,
    pub summary: String,
    /// Timestamp of the newest interaction the summary covers.
    pub covered_until: i64,
    pub original_token_count: i64,
    pub compressed_token_count: i64,
}

/// Number of records migrated from each legacy collection.
#[derive(Debug, Clone, Copy, PartialEq, Eq)]
pub struct MigrationStats {
    pub chat_entries_migrated: usize,
    pub ideas_migrated: usize,
    pub knowledge_migrated: usize,
    pub snapshots_migrated: usize,
}

impl KnowledgeEntry {
    /// A field-by-field copy.
    pub fn duplicate(&self) -> (r: Self)
        ensures
            r == *self,
    {
        KnowledgeEntry {
            id: self.id.clone(),
            content: self.content.clone(),
            created_at: self.created_at,
            nominated: self.nominated,
        }
    }
}

impl IdeaEntry {
    /// A field-by-field copy.
    pub fn duplicate(&self) -> (r: Self)
        ensures
            r == *self,
    {
        IdeaEntry {
            id: self.id.clone(),
            title: self.title.clone(),
            raw_content: self.raw_content.clone(),
            corrected_script: self.corrected_script.clone(),
            created_at: self.created_at,
        }
    }
}

impl ChatHistoryEntry {
    /// A field-by-field copy.
    pub fn duplicate(&self) -> (r: Self)
        ensures
            r == *self,
    {
        let metadata = match &self.metadata {
            Some(m) => Some(m.clone()),
            None => None,
        };
        ChatHistoryEntry {
            id: self.id.clone(),
            timestamp: self.timestamp,
            entry_type: self.entry_type.clone(),
            content: self.content.clone(),
            metadata,
        }
    }
}

impl ContextSnapshot {
    /// A field-by-field copy.
    pub fn duplicate(&self) -> (r: Self)
        ensures
            r == *self,
    {
        ContextSnapshot {
            id: self.id.clone(),
            created_at: self.created_at,
            summary: self.summary.clone(),
            covered_until: self.covered_until,
            original_token_count: self.original_token_count,
            compressed_token_count: self.compressed_token_count,
        }
    }
}

} // verus!
