//! Local memory and process supervision for a desktop captioning assistant:
//! the caption-process supervisor's decisions and event stream, the SQLite
//! store's schema and legacy migration, the similarity ranking, context
//! assembly and the streamed-response framing, and the list and history views
//! around them.

pub mod assembler;
pub mod embedding;
pub mod events;
pub mod export;
pub mod history;
pub mod notes;
pub mod ranking;
pub mod records;
pub mod seq_facts;
pub mod settings;
pub mod sse;
pub mod store;
pub mod supervisor;
