//! Local video conversion: output naming and the ffmpeg command.
use vstd::prelude::*;
use crate::common::ffmpeg::{
    build_hwaccel_args, hwaccel_post, hwaccel_pre, or_default, quality_args, text_or, video_audio_args,
};
use crate::config::watch::VideoRule;
use crate::processor::{bare_ext, make_naming, naming_is, Naming};
use crate::text::{extend_strings, push_str, str_eq, views};

verus! {

/// The rate-control arguments of a quality string ("crf 23", "cq 20",
/// "3000k", ...); an empty or unrecognised string gives `-crf 23`.
pub fn parse_quality_value(quality_str: &str) -> (r: Vec<String>)
    ensures
        views(r@) == quality_args(quality_str@),
{
    crate::common::ffmpeg::parse_quality_value(quality_str)
}

/// Video output: `.mp4` and `{base}_{codec}_{num}.{ext}` by default, named
/// after the codec (`libx264` by default), `video` for counter names.
pub fn video_naming(rule: &VideoRule) -> (r: Naming)
    ensures
        naming_is(
            r,
            bare_ext(rule.output_ext, ".mp4"@),
            or_default(rule.output_name, "{base}_{codec}_{num}.{ext}"@),
            or_default(rule.codec, "libx264"@),
            "video"@,
        ),
{
    make_naming(
        &rule.output_ext,
        ".mp4",
        &rule.output_name,
        "{base}_{codec}_{num}.{ext}",
        text_or(&rule.codec, "libx264"),
        "video",
    )
}

/// The ffmpeg arguments converting `input` to `output`: hardware
/// acceleration around the input, the codec and its rate control, the
/// audio codec and (unless copying) its bitrate.
pub open spec fn local_video_args(rule: VideoRule, input: Seq<char>, output: Seq<char>) -> Seq<Seq<char>> {
    let codec = or_default(rule.codec, "libx264"@);
    seq!["-y"@] + hwaccel_pre(codec) + seq!["-i"@, input] + hwaccel_post(codec) + seq!["-c:v"@, codec]
        + quality_args(or_default(rule.quality, "crf 23"@)) + video_audio_args(
        or_default(rule.audio_codec, "aac"@),
        rule.audio_bitrate,
    ) + seq![output]
}

/// The ffmpeg arguments of a local video conversion.
pub fn video_command_args(rule: &VideoRule, input: &str, output: &str) -> (r: Vec<String>)
    ensures
        views(r@) == local_video_args(*rule, input@, output@),
{
    let quality = text_or(&rule.quality, "crf 23");
    let quality_args = parse_quality_value(quality);
    let codec = text_or(&rule.codec, "libx264");
    let (pre, post) = build_hwaccel_args(codec);
    let mut args: Vec<String> = Vec::new();
    push_str(&mut args, "-y");
    extend_strings(&mut args, pre);
    push_str(&mut args, "-i");
    push_str(&mut args, input);
    extend_strings(&mut args, post);
    push_str(&mut args, "-c:v");
    push_str(&mut args, codec);
    extend_strings(&mut args, quality_args);
    let ghost before_audio = views(args@);
    let audio_codec = text_or(&rule.audio_codec, "aac");
    push_str(&mut args, "-c:a");
    push_str(&mut args, audio_codec);
    if !str_eq(audio_codec, "copy") {
        push_str(&mut args, "-b:a");
        push_str(&mut args, text_or(&rule.audio_bitrate, "128k"));
    }
    assert(views(args@) =~= before_audio + video_audio_args(audio_codec@, rule.audio_bitrate));
    push_str(&mut args, output);
    assert(views(args@) =~= local_video_args(*rule, input@, output@));
    args
}

/// Whether the output's duration is checked against the input's (on
/// unless the rule turns it off).
pub fn checks_duration(rule: &VideoRule) -> (r: bool)
    ensures
        r == match rule.check_duration {
            Some(b) => b,
            None => true,
        },
{
    match rule.check_duration {
        Some(b) => b,
        None => true,
    }
}

} // verus!
