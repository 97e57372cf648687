//! A per-watcher configuration file: a secret, an optional output folder
//! and the rules that replace the watcher's own.
use vstd::prelude::*;
use crate::config::watch::WatchType;

verus! {

/// The contents of a `{name}.yaml` file overriding watcher `name`.
#[derive(Debug, Clone)]
pub struct EmbeddedConfig {
    pub secret: String,
    pub output_folder: String,
    pub watch_type: WatchType,
}

} // verus!
