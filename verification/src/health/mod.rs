//! Health and dashboard state: counters, the queue, files in progress,
//! conversion history and the description of each watcher.
pub mod server;
pub mod watchers;
