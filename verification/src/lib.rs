//! Batches of file edits, written in a small XML dialect: reading them,
//! saying what each does to its file, and keeping the ledger of backups by
//! which a batch is undone.
//!
//! - `xml` reads a document into file changes, takes payloads from between
//!   their markers, says what each file change does to its file, and writes
//!   the prompt that asks for a document.
//! - `undo` holds the change sets of backups and the ledger.
//! - `text` and `lines` treat strings as sequences of characters.
//! - `workspace`, `prompt`, `fs` and `commands` hold the records of the
//!   application and what it computes on them.
//! - `stamp` gives fresh identifiers and the time.
//!
//! Nothing here touches the disk: a caller reads and writes, and hands this
//! library what it has read.

pub mod commands;
pub mod fs;
pub mod lines;
pub mod prompt;
pub mod stamp;
pub mod text;
pub mod undo;
pub mod workspace;
pub mod xml;
