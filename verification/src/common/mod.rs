//! Code shared by the coordinator and the remote worker agent: worker I/O
//! modes, the wire protocol and its framing, discovery replies and ffmpeg
//! argument construction.
pub mod config;
pub mod discovery;
pub mod ffmpeg;
pub mod protocol;
pub mod transport;
