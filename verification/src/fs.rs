//! Files and directories as the application shows them.

pub mod browser;
pub mod watcher;

pub use browser::{collect_file_paths, FileItem, FileType};
pub use watcher::WatchedPaths;
