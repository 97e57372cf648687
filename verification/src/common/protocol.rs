//! Wire protocol between the coordinator and worker agents. Messages travel
//! as JSON inside length-prefixed frames; bulk file bytes follow `Job` and
//! `JobOutputStart` as raw frames.
use vstd::prelude::*;
use crate::common::config::WorkerIoMode;

verus! {

/// Whether a job is a video or audio conversion.
#[derive(Debug, Clone, Copy, PartialEq, Eq, Structural)]
pub enum JobKind {
    Video,
    Audio,
}

/// The video-conversion parameters an agent needs to rebuild the ffmpeg
/// command. The minimum duration ratio is a floating-point number carried as
/// its IEEE-754 bit pattern; nothing here computes with it.
#[derive(Debug, Clone)]
pub struct WireVideoRule {
    pub codec: Option<String>,
    pub quality: Option<String>,
    pub audio_codec: Option<String>,
    pub audio_bitrate: Option<String>,
    pub check_duration: Option<bool>,
    pub min_duration_ratio_bits: Option<u64>,
}

impl Default for WireVideoRule {
    fn default() -> (r: Self)
        ensures
            r.codec is None,
            r.quality is None,
            r.audio_codec is None,
            r.audio_bitrate is None,
            r.check_duration is None,
            r.min_duration_ratio_bits is None,
    {
        WireVideoRule {
            codec: None,
            quality: None,
            audio_codec: None,
            audio_bitrate: None,
            check_duration: None,
            min_duration_ratio_bits: None,
        }
    }
}

/// The audio-conversion parameters an agent needs.
#[derive(Debug, Clone)]
pub struct WireAudioRule {
    pub audio_codec: Option<String>,
    pub audio_bitrate: Option<String>,
    pub sample_rate: Option<u32>,
    pub channels: Option<u8>,
}

impl Default for WireAudioRule {
    fn default() -> (r: Self)
        ensures
            r.audio_codec is None,
            r.audio_bitrate is None,
            r.sample_rate is None,
            r.channels is None,
    {
        WireAudioRule { audio_codec: None, audio_bitrate: None, sample_rate: None, channels: None }
    }
}

/// Capabilities advertised by an agent.
#[derive(Debug, Clone, Copy)]
pub struct Capabilities {
    pub ffmpeg: bool,
    pub io_mode: WorkerIoMode,
}

/// Control messages exchanged over the agent connection and, for the
/// beacon pair, over UDP discovery.
#[derive(Debug, Clone)]
pub enum Message {
    /// UDP: agent to broadcast, looking for a coordinator.
    Beacon { agent_id: String },
    /// UDP: coordinator to agent, announcing where to connect.
    BeaconAck { tcp_addr: String, tcp_port: u16 },
    /// TCP: agent to server, first message after connecting.
    Register { agent_id: String, secret: String, caps: Capabilities },
    /// TCP: server to agent, connection accepted.
    RegisterAck { server_id: String },
    /// TCP: server to agent, connection rejected.
    RegisterReject { reason: String },
    /// TCP: server to agent, announces a job; `input_len` bytes follow.
    Job {
        job_id: u64,
        kind: JobKind,
        video_rule: Option<WireVideoRule>,
        audio_rule: Option<WireAudioRule>,
        output_ext: String,
        io_mode: WorkerIoMode,
        input_len: u64,
    },
    /// TCP: agent to server, the job is running.
    JobStatus { job_id: u64, state: String },
    /// TCP: agent to server, announces the output; `output_len` bytes follow.
    JobOutputStart { job_id: u64, output_len: u64 },
    /// TCP: agent to server, final result of a job.
    JobResult { job_id: u64, ok: bool, error: Option<String> },
    /// TCP: server to agent, abort a running job.
    JobAbort { job_id: u64 },
    /// TCP: keepalive, both directions.
    Heartbeat,
    /// TCP: agent to server, graceful disconnect.
    Bye,
}

} // verus!
