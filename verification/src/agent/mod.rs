//! The remote worker agent: configuration resolution and the decisions of its
//! connection loop. The network and process work stays with the binary.
pub mod runner;

use vstd::prelude::*;
use crate::common::config::{io_mode_result, sibling_ffprobe, sibling_ffprobe_path, WorkerIoMode, DEFAULT_DISCOVERY_PORT};
use crate::common::protocol::{Capabilities, Message};
use crate::text::{lowercase, owned, trim};

verus! {

/// Settings given on the agent's command line (each optional).
#[derive(Debug, Clone)]
pub struct AgentArgs {
    pub coordinator_addr: Option<String>,
    pub discovery_port: Option<u16>,
    pub secret: Option<String>,
    pub ffmpeg_path: Option<String>,
    pub ffprobe_path: Option<String>,
    pub temp_dir: Option<String>,
    pub io_mode: Option<String>,
    pub agent_id: Option<String>,
}

/// The resolved agent configuration.
#[derive(Debug, Clone)]
pub struct AgentConfig {
    pub coordinator_addr: Option<String>,
    pub discovery_port: u16,
    pub secret: String,
    pub ffmpeg_path: String,
    pub ffprobe_path: String,
    pub temp_dir: String,
    pub io_mode: WorkerIoMode,
    pub agent_id: String,
}

/// The first present value of the two.
pub open spec fn first_of<T>(a: Option<T>, b: Option<T>) -> Option<T> {
    match a {
        Some(x) => Some(x),
        None => b,
    }
}

/// The text of the first present string, or `d`.
pub open spec fn text_first(a: Option<String>, b: Option<String>, d: Seq<char>) -> Seq<char> {
    match first_of(a, b) {
        Some(s) => s@,
        None => d,
    }
}

/// The agent id when none is configured: `HOSTNAME` if set and not empty.
pub open spec fn hostname_spec(env: Option<Seq<char>>) -> Seq<char> {
    match env {
        Some(h) => if h.len() > 0 {
            h
        } else {
            "convwatcher-agent"@
        },
        None => "convwatcher-agent"@,
    }
}

/// The agent id used when none is configured, from the `HOSTNAME` value.
pub fn hostname_or_default(env: Option<String>) -> (r: String)
    ensures
        r@ == hostname_spec(
            match env {
                Some(h) => Some(h@),
                None => None,
            },
        ),
{
    match env {
        Some(h) => if h.unicode_len() > 0 {
            h
        } else {
            owned("convwatcher-agent")
        },
        None => owned("convwatcher-agent"),
    }
}

fn pick(a: &Option<String>, b: &Option<String>) -> (r: Option<String>)
    ensures
        r == first_of(*a, *b),
{
    match a {
        Some(x) => Some(x.clone()),
        None => b.clone(),
    }
}

/// Merges command-line settings over file settings over defaults. The only
/// refusal is an unknown I/O mode name, with the mode parser's message.
pub fn resolve_agent_config(cli: &AgentArgs, file: &AgentArgs, hostname: &str) -> (r: Result<
    AgentConfig,
    String,
>)
    ensures
        ({
            let mode_text = first_of(cli.io_mode, file.io_mode);
            match r {
                Ok(c) => {
                    &&& c.coordinator_addr == first_of(cli.coordinator_addr, file.coordinator_addr)
                    &&& c.discovery_port == (match first_of(cli.discovery_port, file.discovery_port) {
                        Some(p) => p,
                        None => DEFAULT_DISCOVERY_PORT,
                    })
                    &&& c.secret@ == text_first(cli.secret, file.secret, ""@)
                    &&& c.ffmpeg_path@ == text_first(cli.ffmpeg_path, file.ffmpeg_path, "/usr/bin/ffmpeg"@)
                    &&& c.ffprobe_path@ == text_first(
                        cli.ffprobe_path,
                        file.ffprobe_path,
                        sibling_ffprobe(c.ffmpeg_path@),
                    )
                    &&& c.temp_dir@ == text_first(cli.temp_dir, file.temp_dir, "/tmp"@)
                    &&& c.agent_id@ == text_first(cli.agent_id, file.agent_id, hostname@)
                    &&& match mode_text {
                        Some(t) => io_mode_result(lowercase(trim(t@)), Ok(c.io_mode)),
                        None => c.io_mode == WorkerIoMode::Temp,
                    }
                },
                Err(e) => mode_text matches Some(t) && io_mode_result(lowercase(trim(t@)), Err(e)),
            }
        }),
{
    let ffmpeg_path = match pick(&cli.ffmpeg_path, &file.ffmpeg_path) {
        Some(p) => p,
        None => owned("/usr/bin/ffmpeg"),
    };
    let ffprobe_path = match pick(&cli.ffprobe_path, &file.ffprobe_path) {
        Some(p) => p,
        None => sibling_ffprobe_path(ffmpeg_path.as_str()),
    };
    let io_mode = match pick(&cli.io_mode, &file.io_mode) {
        Some(t) => match WorkerIoMode::parse(t.as_str()) {
            Ok(m) => m,
            Err(e) => return Err(e),
        },
        None => WorkerIoMode::Temp,
    };
    let discovery_port = match cli.discovery_port {
        Some(p) => p,
        None => match file.discovery_port {
            Some(p) => p,
            None => DEFAULT_DISCOVERY_PORT,
        },
    };
    let secret = match pick(&cli.secret, &file.secret) {
        Some(s) => s,
        None => String::new(),
    };
    let temp_dir = match pick(&cli.temp_dir, &file.temp_dir) {
        Some(s) => s,
        None => owned("/tmp"),
    };
    let agent_id = match pick(&cli.agent_id, &file.agent_id) {
        Some(s) => s,
        None => owned(hostname),
    };
    proof {
        reveal_strlit("");
    }
    Ok(AgentConfig {
        coordinator_addr: pick(&cli.coordinator_addr, &file.coordinator_addr),
        discovery_port,
        secret,
        ffmpeg_path,
        ffprobe_path,
        temp_dir,
        io_mode,
        agent_id,
    })
}

/// The registration message an agent opens its connection with.
pub fn register_message(config: &AgentConfig) -> (r: Message)
    ensures
        r matches Message::Register { agent_id, secret, caps } && agent_id@ == config.agent_id@
            && secret@ == config.secret@ && caps.ffmpeg && caps.io_mode == config.io_mode,
{
    Message::Register {
        agent_id: config.agent_id.clone(),
        secret: config.secret.clone(),
        caps: Capabilities { ffmpeg: true, io_mode: config.io_mode },
    }
}

/// How the coordinator answered a registration.
#[derive(Debug)]
pub enum RegisterOutcome {
    /// Accepted by the named server.
    Accepted(String),
    /// Refused for the given reason.
    Rejected(String),
    /// Some other message arrived.
    Unexpected,
}

/// Reads the coordinator's answer to a registration.
pub fn registration_outcome(msg: &Message) -> (r: RegisterOutcome)
    ensures
        match msg {
            Message::RegisterAck { server_id } => r matches RegisterOutcome::Accepted(s) && s@
                == server_id@,
            Message::RegisterReject { reason } => r matches RegisterOutcome::Rejected(s) && s@
                == reason@,
            _ => r is Unexpected,
        },
{
    match msg {
        Message::RegisterAck { server_id } => RegisterOutcome::Accepted(server_id.clone()),
        Message::RegisterReject { reason } => RegisterOutcome::Rejected(reason.clone()),
        _ => RegisterOutcome::Unexpected,
    }
}

/// What the agent does with a message in its main loop.
#[derive(Debug, Clone, Copy, PartialEq, Eq, Structural)]
pub enum AgentAction {
    /// Run the announced job.
    RunJob,
    /// Answer with a heartbeat.
    Heartbeat,
    /// An abort for a job that is not running; nothing to do.
    IgnoreAbort(u64),
    /// The coordinator closed the connection.
    Stop,
    /// Any other message is ignored.
    Ignore,
}

/// The agent's decision for a message received in its main loop.
pub fn agent_action(msg: &Message) -> (r: AgentAction)
    ensures
        r == (match msg {
            Message::Job { .. } => AgentAction::RunJob,
            Message::Heartbeat => AgentAction::Heartbeat,
            Message::JobAbort { job_id } => AgentAction::IgnoreAbort(*job_id),
            Message::Bye => AgentAction::Stop,
            _ => AgentAction::Ignore,
        }),
{
    match msg {
        Message::Job { .. } => AgentAction::RunJob,
        Message::Heartbeat => AgentAction::Heartbeat,
        Message::JobAbort { job_id } => AgentAction::IgnoreAbort(*job_id),
        Message::Bye => AgentAction::Stop,
        _ => AgentAction::Ignore,
    }
}

} // verus!
