//! Shared configuration types for the worker system.
use vstd::prelude::*;
use crate::paths::{join, join_path, parent, path_parent};
use crate::text::{
    append, lowercase, owned, str_eq, to_lowercase, trim, trim_end, trim_start, trim_start_char, trim_start_matches_char,
    trim_str,
};

verus! {

/// Default UDP port that agents broadcast to and the server listens on for
/// discovery beacons.
pub const DEFAULT_DISCOVERY_PORT: u16 = 8687;

/// Default TCP port the coordinator listens on for worker connections.
pub const DEFAULT_COORDINATOR_PORT: u16 = 8688;

/// How the worker performs input/output relative to ffmpeg.
#[derive(Debug, Clone, Copy, PartialEq, Eq, Structural)]
pub enum WorkerIoMode {
    /// Write the streamed input to a temp file, run ffmpeg file-in/file-out,
    /// then stream the temp output file back.
    Temp,
    /// Feed the input into ffmpeg `stdin` and stream ffmpeg `stdout` back.
    Pipe,
}

impl Default for WorkerIoMode {
    fn default() -> (r: Self)
        ensures
            r == WorkerIoMode::Temp,
    {
        WorkerIoMode::Temp
    }
}

/// The mode a lower-cased, trimmed name selects.
pub open spec fn io_mode_named(t: Seq<char>) -> Option<WorkerIoMode> {
    if t == "temp"@ || t == "file"@ {
        Some(WorkerIoMode::Temp)
    } else if t == "pipe"@ || t == "stream"@ {
        Some(WorkerIoMode::Pipe)
    } else {
        None
    }
}

/// The error text for an unknown mode name.
pub open spec fn io_mode_error(t: Seq<char>) -> Seq<char> {
    "invalid worker io mode: '"@ + t + "' (expected 'temp' or 'pipe')"@
}

/// The name of a mode as shown to users.
pub open spec fn io_mode_name(m: WorkerIoMode) -> Seq<char> {
    match m {
        WorkerIoMode::Temp => "temp"@,
        WorkerIoMode::Pipe => "pipe"@,
    }
}

/// The outcome of parsing the already trimmed and lower-cased name `t`.
pub open spec fn io_mode_result(t: Seq<char>, r: Result<WorkerIoMode, String>) -> bool {
    match io_mode_named(t) {
        Some(m) => r == Ok::<WorkerIoMode, String>(m),
        None => r matches Err(e) && e@ == io_mode_error(t),
    }
}

impl WorkerIoMode {
    /// Selects the mode for a trimmed, lower-cased name: `temp`/`file` or
    /// `pipe`/`stream`.
    pub fn from_lowercase(t: &str) -> (r: Result<WorkerIoMode, String>)
        ensures
            io_mode_result(t@, r),
    {
        if str_eq(t, "temp") || str_eq(t, "file") {
            Ok(WorkerIoMode::Temp)
        } else if str_eq(t, "pipe") || str_eq(t, "stream") {
            Ok(WorkerIoMode::Pipe)
        } else {
            let mut m = owned("invalid worker io mode: '");
            append(&mut m, t);
            append(&mut m, "' (expected 'temp' or 'pipe')");
            Err(m)
        }
    }

    /// Parses a mode name, ignoring surrounding whitespace and case.
    pub fn parse(s: &str) -> (r: Result<WorkerIoMode, String>)
        ensures
            io_mode_result(lowercase(trim(s@)), r),
    {
        let t = trim_str(s);
        let l = to_lowercase(t.as_str());
        WorkerIoMode::from_lowercase(l.as_str())
    }

    /// The mode's name as shown to users.
    pub fn as_str(&self) -> (r: &'static str)
        ensures
            r@ == io_mode_name(*self),
    {
        match self {
            WorkerIoMode::Temp => "temp",
            WorkerIoMode::Pipe => "pipe",
        }
    }
}

impl std::str::FromStr for WorkerIoMode {
    type Err = String;

    fn from_str(s: &str) -> (r: Result<Self, Self::Err>)
        ensures
            io_mode_result(lowercase(trim(s@)), r),
    {
        WorkerIoMode::parse(s)
    }
}

/// A mode's own name parses back to that mode: parsing `m.as_str()`
/// (whitespace trimmed, then lower-cased) gives `Ok(m)`, lower-casing
/// leaving the already lower-case name as it is.
pub proof fn law_io_mode_round_trip(m: WorkerIoMode)
    requires
        lowercase(io_mode_name(m)) == io_mode_name(m),
    ensures
        io_mode_result(lowercase(trim(io_mode_name(m))), Ok(m)),
{
    reveal_strlit("temp");
    reveal_strlit("pipe");
    let n = io_mode_name(m);
    assert(trim_start(n) == n);
    assert(trim_end(n) == n);
    assert(trim(n) == n);
    match m {
        WorkerIoMode::Temp => {
            assert(io_mode_named(n) == Some(WorkerIoMode::Temp));
        },
        WorkerIoMode::Pipe => {
            assert(n != "temp"@);
            assert(n != "file"@) by {
                reveal_strlit("file");
            }
            assert(io_mode_named(n) == Some(WorkerIoMode::Pipe));
        },
    }
}

/// The muxer for a lower-cased extension without leading dots.
pub open spec fn pipe_format_named(t: Seq<char>) -> Seq<char> {
    if t == "webm"@ {
        "webm"@
    } else if t == "mka"@ || t == "mkv"@ || t == "mp4"@ || t == "mov"@ || t == "m4a"@ || t
        == "aac"@ {
        "matroska"@
    } else if t == "mp3"@ {
        "mp3"@
    } else if t == "ogg"@ || t == "oga"@ {
        "ogg"@
    } else if t == "flac"@ {
        "flac"@
    } else if t == "wav"@ {
        "wav"@
    } else {
        "matroska"@
    }
}

/// The muxer ffmpeg writes to stdout in pipe mode, for a lower-cased
/// extension without leading dots.
pub fn pipe_format_for(t: &str) -> (r: &'static str)
    ensures
        r@ == pipe_format_named(t@),
{
    if str_eq(t, "webm") {
        "webm"
    } else if str_eq(t, "mka") || str_eq(t, "mkv") || str_eq(t, "mp4") || str_eq(t, "mov")
        || str_eq(t, "m4a") || str_eq(t, "aac") {
        "matroska"
    } else if str_eq(t, "mp3") {
        "mp3"
    } else if str_eq(t, "ogg") || str_eq(t, "oga") {
        "ogg"
    } else if str_eq(t, "flac") {
        "flac"
    } else if str_eq(t, "wav") {
        "wav"
    } else {
        "matroska"
    }
}

/// The container format ffmpeg must mux to when writing to stdout in pipe
/// mode: the output extension (leading dots removed, lower-cased) mapped to a
/// pipe-friendly muxer, Matroska where nothing more specific applies.
pub fn pipe_output_format(output_ext: &str) -> (r: &'static str)
    ensures
        r@ == pipe_format_named(lowercase(trim_start_char(output_ext@, '.'))),
{
    let t = trim_start_matches_char(output_ext, '.');
    let l = to_lowercase(t.as_str());
    pipe_format_for(l.as_str())
}

/// The ffprobe used when none is configured: `ffprobe` beside the ffmpeg
/// binary, or `/usr/bin/ffprobe` when its path has no parent.
pub open spec fn sibling_ffprobe(ffmpeg: Seq<char>) -> Seq<char> {
    match parent(ffmpeg) {
        Some(p) => join(p, "ffprobe"@),
        None => "/usr/bin/ffprobe"@,
    }
}

/// The ffprobe beside the given ffmpeg binary (see `sibling_ffprobe`).
pub fn sibling_ffprobe_path(ffmpeg: &str) -> (r: String)
    ensures
        r@ == sibling_ffprobe(ffmpeg@),
{
    match path_parent(ffmpeg) {
        Some(p) => join_path(p.as_str(), "ffprobe"),
        None => owned("/usr/bin/ffprobe"),
    }
}

} // verus!
