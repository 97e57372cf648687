//! Routing conversion jobs between remote agents and local processors, and
//! naming the output of a job.
use vstd::prelude::*;
use crate::common::ffmpeg::{or_default, text_or};
use crate::common::protocol::{JobKind, WireAudioRule, WireVideoRule};
use crate::config::watch::{AudioRule, VideoRule};
use crate::paths::join;
use crate::processor::job::MatchedRule;
use crate::processor::namer::{counter_outcome, generate_outcome, NamerError, OutputNamer, PathProbe};
use crate::processor::{bare_ext, Naming};
use crate::text::{copy_opt, owned, trim_start_matches_char};
use crate::utils::path::{base_name, get_base_name};

verus! {

/// Whether a job goes to an agent: some agent is connected and the job is
/// a video or audio conversion.
pub fn can_remote(agent_count: usize, rule: &MatchedRule) -> (r: bool)
    ensures
        r == (agent_count > 0 && (rule is Video || rule is Audio)),
{
    agent_count > 0 && match rule {
        MatchedRule::Video(_) | MatchedRule::Audio(_) => true,
        _ => false,
    }
}

/// The parts of a remote job that do not depend on the agent: its kind,
/// the output naming, and the rule sent over the wire.
#[derive(Debug, Clone)]
pub struct RemotePlan {
    pub kind: JobKind,
    pub naming: Naming,
    pub output_name: Option<String>,
    pub video_rule: Option<WireVideoRule>,
    pub audio_rule: Option<WireAudioRule>,
}

/// The wire form of a video rule.
pub open spec fn wire_video(rule: VideoRule) -> WireVideoRule {
    WireVideoRule {
        codec: rule.codec,
        quality: rule.quality,
        audio_codec: rule.audio_codec,
        audio_bitrate: rule.audio_bitrate,
        check_duration: rule.check_duration,
        min_duration_ratio_bits: rule.min_duration_ratio_bits,
    }
}

/// The wire form of an audio rule.
pub open spec fn wire_audio(rule: AudioRule) -> WireAudioRule {
    WireAudioRule {
        audio_codec: rule.audio_codec,
        audio_bitrate: rule.audio_bitrate,
        sample_rate: rule.sample_rate,
        channels: rule.channels,
    }
}

/// The remote plan of a video or audio job: the extension (`.mp4` or
/// `.mp3` by default, leading dots removed), the codec named in the output
/// (`libx264` or `libmp3lame` by default), and the wire rule.
pub fn remote_plan(rule: &MatchedRule) -> (r: Option<RemotePlan>)
    ensures
        match rule {
            MatchedRule::Video(v) => r matches Some(p) && p.kind == JobKind::Video && p.naming.ext@ == bare_ext(
                v.output_ext,
                ".mp4"@,
            ) && p.naming.codec@ == or_default(v.codec, "libx264"@) && p.naming.label@ == "video"@
                && p.output_name == v.output_name && p.video_rule == Some(wire_video(*v)) && p.audio_rule is None,
            MatchedRule::Audio(a) => r matches Some(p) && p.kind == JobKind::Audio && p.naming.ext@ == bare_ext(
                a.output_ext,
                ".mp3"@,
            ) && p.naming.codec@ == or_default(a.audio_codec, "libmp3lame"@) && p.naming.label@ == "audio"@
                && p.output_name == a.output_name && p.audio_rule == Some(wire_audio(*a)) && p.video_rule is None,
            _ => r is None,
        },
{
    match rule {
        MatchedRule::Video(v) => {
            let naming = Naming {
                ext: trim_start_matches_char(text_or(&v.output_ext, ".mp4"), '.'),
                template: owned(text_or(&v.output_name, "{base}_{codec}_{num}.{ext}")),
                codec: owned(text_or(&v.codec, "libx264")),
                label: owned("video"),
            };
            let wire = WireVideoRule {
                codec: copy_opt(&v.codec),
                quality: copy_opt(&v.quality),
                audio_codec: copy_opt(&v.audio_codec),
                audio_bitrate: copy_opt(&v.audio_bitrate),
                check_duration: v.check_duration,
                min_duration_ratio_bits: v.min_duration_ratio_bits,
            };
            Some(
                RemotePlan {
                    kind: JobKind::Video,
                    naming,
                    output_name: copy_opt(&v.output_name),
                    video_rule: Some(wire),
                    audio_rule: None,
                },
            )
        },
        MatchedRule::Audio(a) => {
            let naming = Naming {
                ext: trim_start_matches_char(text_or(&a.output_ext, ".mp3"), '.'),
                template: owned(text_or(&a.output_name, "{base}_{codec}_{num}.{ext}")),
                codec: owned(text_or(&a.audio_codec, "libmp3lame")),
                label: owned("audio"),
            };
            let wire = WireAudioRule {
                audio_codec: copy_opt(&a.audio_codec),
                audio_bitrate: copy_opt(&a.audio_bitrate),
                sample_rate: a.sample_rate,
                channels: a.channels,
            };
            Some(
                RemotePlan {
                    kind: JobKind::Audio,
                    naming,
                    output_name: copy_opt(&a.output_name),
                    video_rule: None,
                    audio_rule: Some(wire),
                },
            )
        },
        _ => None,
    }
}

/// What `compute_output_path` promises: the path the template gives, or,
/// where the template was refused, the counter path.
pub open spec fn output_path_outcome<F: Fn(&String) -> PathProbe, G: Fn(&String) -> bool>(
    r: Seq<char>,
    probe: F,
    is_taken: G,
    folder: Seq<char>,
    base: Seq<char>,
    template: Seq<char>,
    codec: Seq<char>,
    ext: Seq<char>,
    label: Seq<char>,
    cf: Option<Seq<char>>,
    now_secs: nat,
) -> bool {
    ||| exists|p: String| generate_outcome(Ok(p), probe, folder, template, base, codec, ext, cf) && r == p@
    ||| exists|e: NamerError|
        generate_outcome(Err(e), probe, folder, template, base, codec, ext, cf) && counter_outcome(
            r,
            is_taken,
            folder,
            base,
            label,
            ext,
            now_secs,
        )
}

/// The output path of a job: the template (the default
/// `{base}_{codec}_{num}.{ext}` unless one is given) applied to the file's
/// base name; when the template is refused or every counter is taken, the
/// counter name with `fallback_label` as codec.
pub fn compute_output_path<F: Fn(&String) -> PathProbe, G: Fn(&String) -> bool>(
    output_folder: &str,
    file_name: &str,
    output_name: Option<&str>,
    codec: &str,
    ext: &str,
    fallback_label: &str,
    canonical_folder: Option<&str>,
    probe: F,
    now_secs: u64,
    is_taken: G,
) -> (r: String)
    requires
        forall|s: &String| call_requires(probe, (s,)),
        forall|s: &String| call_requires(is_taken, (s,)),
    ensures
        output_path_outcome(
            r@,
            probe,
            is_taken,
            output_folder@,
            base_name(file_name@),
            match output_name {
                Some(t) => t@,
                None => "{base}_{codec}_{num}.{ext}"@,
            },
            codec@,
            ext@,
            fallback_label@,
            match canonical_folder {
                Some(f) => Some(f@),
                None => None,
            },
            now_secs as nat,
        ),
{
    let base = get_base_name(file_name);
    let template = match output_name {
        Some(t) => t,
        None => "{base}_{codec}_{num}.{ext}",
    };
    let ghost cf = match canonical_folder {
        Some(f) => Some(f@),
        None => None,
    };
    let generated = OutputNamer::generate_path(output_folder, base.as_str(), template, codec, ext, canonical_folder, probe);
    match generated {
        Ok(p) => {
            assert(generate_outcome(Ok(p), probe, output_folder@, template@, base@, codec@, ext@, cf));
            p
        },
        Err(e) => {
            let r = OutputNamer::generate_with_counter(
                output_folder,
                base.as_str(),
                fallback_label,
                ext,
                now_secs,
                is_taken,
            );
            assert(generate_outcome(Err(e), probe, output_folder@, template@, base@, codec@, ext@, cf));
            r
        },
    }
}

} // verus!
