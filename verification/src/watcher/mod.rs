//! Folder watching: which files are stable, which rule they match, and the
//! per-watcher configuration files dropped into watched folders.
pub mod embedded;
pub mod monitor;
