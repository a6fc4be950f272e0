//! The edit protocol: its records, its reader and its writer.

pub mod apply;
pub mod change;
pub mod error;
pub mod event;
pub mod generator;
pub mod markers;
pub mod parser;
pub mod reader;

pub use change::{Change, ChangeAction, ChangeResult, FileChange};
pub use error::ProtocolError;
pub use generator::generate_xml_prompt;
pub use markers::extract_between_markers;
pub use parser::parse_xml_diff;
