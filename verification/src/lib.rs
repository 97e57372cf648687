//! Verified core of ConvWatcher: rule resolution, configuration checks,
//! output naming, ffmpeg argument construction, wire framing and the
//! decision logic of the watcher, health state and worker protocol.
use vstd::prelude::*;

pub mod agent;
pub mod cli;
pub mod common;
pub mod config;
pub mod health;
pub mod keyed;
pub mod logs;
pub mod watcher;
pub mod text;
pub mod utils;
pub mod worker;
pub mod paths;
pub mod processor;

verus! {

} // verus!
