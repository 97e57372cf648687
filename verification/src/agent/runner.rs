//! Decisions of a single streamed job on the agent: which ffmpeg arguments to
//! run, where the temp files go, and what to report back.
use vstd::prelude::*;
use crate::common::config::WorkerIoMode;
use crate::common::ffmpeg::{audio_args, build_audio_args, build_video_args, video_args, INPUT_TOKEN, OUTPUT_TOKEN};
use crate::common::protocol::{JobKind, Message, WireAudioRule, WireVideoRule};
use crate::paths::{join, join_path};
use crate::text::{append, decimal, decimal_string, owned, str_eq, trim_start_char, trim_start_matches_char, views};
use vstd::string::StringSliceAdditionalSpecFns;
use vstd::utf8::{encode_utf8, is_char_boundary};

verus! {

/// A character allowed in a temp-file extension.
pub open spec fn safe_ext_char(c: char) -> bool {
    ||| ('a' <= c && c <= 'z')
    ||| ('A' <= c && c <= 'Z')
    ||| ('0' <= c && c <= '9')
    ||| c == '_'
    ||| c == '+'
    ||| c == '-'
}

/// The extension used for the temp output file: the requested one without
/// leading dots if it is 1 to 16 safe characters, `bin` otherwise.
pub open spec fn sanitized_ext(ext: Seq<char>) -> Seq<char> {
    let e = trim_start_char(ext, '.');
    if e.len() > 16 || e.len() == 0 || !(forall|i: int| 0 <= i < e.len() ==> safe_ext_char(#[trigger] e[i])) {
        "bin"@
    } else {
        e
    }
}

proof fn lemma_bin()
    ensures
        "bin"@ == seq!['b', 'i', 'n'],
        forall|i: int| 0 <= i < "bin"@.len() ==> safe_ext_char(#[trigger] "bin"@[i]),
{
    reveal_strlit("bin");
    assert("bin"@ =~= seq!['b', 'i', 'n']);
}

/// Restricts the output extension to a safe charset so it cannot steer the
/// temp-file name; `bin` when it is unusable.
pub fn sanitize_ext(ext: &str) -> (r: String)
    ensures
        r@ == sanitized_ext(ext@),
        r@.len() >= 1 && r@.len() <= 16,
        forall|i: int| 0 <= i < r@.len() ==> safe_ext_char(#[trigger] r@[i]),
{
    proof {
        lemma_bin();
    }
    let e = trim_start_matches_char(ext, '.');
    let n = e.unicode_len();
    if n > 16 || n == 0 {
        return owned("bin");
    }
    let mut i: usize = 0;
    while i < n
        invariant
            n == e@.len(),
            0 < n <= 16,
            e@ == trim_start_char(ext@, '.'),
            i <= n,
            forall|k: int| 0 <= k < i ==> safe_ext_char(#[trigger] e@[k]),
        decreases n - i,
    {
        let c = e.get_char(i);
        let ok = ('a' <= c && c <= 'z') || ('A' <= c && c <= 'Z') || ('0' <= c && c <= '9') || c
            == '_' || c == '+' || c == '-';
        if !ok {
            proof {
                lemma_bin();
            }
            assert(!safe_ext_char(e@[i as int]));
            return owned("bin");
        }
        i = i + 1;
    }
    e
}

/// The last `max` bytes of `s`, or all of `s` when it is not longer.
/// Requires the cut to fall on a character boundary.
pub fn tail(s: &str, max: usize) -> (r: String)
    requires
        s.spec_bytes().len() <= usize::MAX,
        s.spec_bytes().len() > max ==> is_char_boundary(
            s.spec_bytes(),
            s.spec_bytes().len() - max,
        ),
    ensures
        s.spec_bytes().len() <= max ==> r@ == s@,
        s.spec_bytes().len() > max ==> encode_utf8(r@) == s.spec_bytes().skip(
            s.spec_bytes().len() - max,
        ),
{
    let len = s.len();
    if len <= max {
        return owned(s);
    }
    let (_head, rest) = s.split_at(len - max);
    assert(rest.spec_bytes() =~= s.spec_bytes().skip(s.spec_bytes().len() - max));
    owned(rest)
}

/// The ffmpeg arguments for a job (a missing rule counts as all defaults).
pub fn build_args(
    kind: JobKind,
    video_rule: &Option<WireVideoRule>,
    audio_rule: &Option<WireAudioRule>,
    output_ext: &str,
    io_mode: WorkerIoMode,
) -> (r: Vec<String>)
    ensures
        views(r@) == match kind {
            JobKind::Video => video_args(
                match video_rule {
                    Some(v) => *v,
                    None => WireVideoRule {
                        codec: None,
                        quality: None,
                        audio_codec: None,
                        audio_bitrate: None,
                        check_duration: None,
                        min_duration_ratio_bits: None,
                    },
                },
                output_ext@,
                io_mode,
            ),
            JobKind::Audio => audio_args(
                match audio_rule {
                    Some(a) => *a,
                    None => WireAudioRule {
                        audio_codec: None,
                        audio_bitrate: None,
                        sample_rate: None,
                        channels: None,
                    },
                },
                output_ext@,
                io_mode,
            ),
        },
{
    match kind {
        JobKind::Video => match video_rule {
            Some(v) => build_video_args(v, output_ext, io_mode),
            None => {
                let d = WireVideoRule {
                    codec: None,
                    quality: None,
                    audio_codec: None,
                    audio_bitrate: None,
                    check_duration: None,
                    min_duration_ratio_bits: None,
                };
                build_video_args(&d, output_ext, io_mode)
            },
        },
        JobKind::Audio => match audio_rule {
            Some(a) => build_audio_args(a, output_ext, io_mode),
            None => {
                let d = WireAudioRule {
                    audio_codec: None,
                    audio_bitrate: None,
                    sample_rate: None,
                    channels: None,
                };
                build_audio_args(&d, output_ext, io_mode)
            },
        },
    }
}

/// `a` with the `{INPUT}` and `{OUTPUT}` placeholders replaced by the paths.
pub open spec fn substitute(a: Seq<char>, input: Seq<char>, output: Seq<char>) -> Seq<char> {
    if a == "{INPUT}"@ {
        input
    } else if a == "{OUTPUT}"@ {
        output
    } else {
        a
    }
}

/// Replaces each placeholder argument by the real temp path.
pub fn substitute_paths(args: Vec<String>, input: &str, output: &str) -> (r: Vec<String>)
    ensures
        r@.len() == args@.len(),
        forall|i: int|
            0 <= i < args@.len() ==> #[trigger] r@[i]@ == substitute(args@[i]@, input@, output@),
{
    let mut out: Vec<String> = Vec::new();
    let n = args.len();
    let mut i: usize = 0;
    while i < n
        invariant
            n == args@.len(),
            i <= n,
            out@.len() == i,
            forall|k: int|
                0 <= k < i ==> #[trigger] out@[k]@ == substitute(args@[k]@, input@, output@),
        decreases n - i,
    {
        let a = &args[i];
        if str_eq(a.as_str(), INPUT_TOKEN) {
            out.push(owned(input));
        } else if str_eq(a.as_str(), OUTPUT_TOKEN) {
            out.push(owned(output));
        } else {
            out.push(a.clone());
        }
        i = i + 1;
    }
    out
}

/// The temp input and output paths of a job: `cw-{id}-in.tmp` and
/// `cw-{id}-out.{ext}` in the temp directory, the extension sanitized.
pub fn temp_paths(temp_dir: &str, job_id: u64, output_ext: &str) -> (r: (String, String))
    ensures
        r.0@ == join(temp_dir@, "cw-"@ + decimal(job_id as nat) + "-in.tmp"@),
        r.1@ == join(temp_dir@, "cw-"@ + decimal(job_id as nat) + "-out."@ + sanitized_ext(output_ext@)),
{
    let id = decimal_string(job_id);
    let mut in_name = owned("cw-");
    append(&mut in_name, id.as_str());
    append(&mut in_name, "-in.tmp");
    let ext = sanitize_ext(output_ext);
    let mut out_name = owned("cw-");
    append(&mut out_name, id.as_str());
    append(&mut out_name, "-out.");
    append(&mut out_name, ext.as_str());
    (join_path(temp_dir, in_name.as_str()), join_path(temp_dir, out_name.as_str()))
}

/// The status message sent when a job starts.
pub fn running_status(job_id: u64) -> (r: Message)
    ensures
        r matches Message::JobStatus { job_id: j, state } && j == job_id && state@ == "running"@,
{
    Message::JobStatus { job_id, state: owned("running") }
}

/// The final report of a job: success, or failure with its error text.
pub fn job_result(job_id: u64, error: Option<String>) -> (r: Message)
    ensures
        r matches Message::JobResult { job_id: j, ok, error: e } && j == job_id && ok == (error is None) && e == error,
{
    let ok = error.is_none();
    Message::JobResult { job_id, ok, error }
}

} // verus!
