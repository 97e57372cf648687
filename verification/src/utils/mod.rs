//! Small helpers: file base names and hardware encoder detection.
pub mod path;
pub mod hardware;
