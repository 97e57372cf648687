//! Local audio conversion: output naming and the ffmpeg command.
use vstd::prelude::*;
use crate::common::ffmpeg::{audio_core_args, or_default, push_audio_core, text_or};
use crate::config::watch::AudioRule;
use crate::processor::{bare_ext, make_naming, naming_is, Naming};
use crate::text::{extend_strings, push_str, views};

verus! {

/// Audio output: `.mp3` and `{base}_{codec}_{num}.{ext}` by default, named
/// after the codec (`libmp3lame` by default), `audio` for counter names.
pub fn audio_naming(rule: &AudioRule) -> (r: Naming)
    ensures
        naming_is(
            r,
            bare_ext(rule.output_ext, ".mp3"@),
            or_default(rule.output_name, "{base}_{codec}_{num}.{ext}"@),
            or_default(rule.audio_codec, "libmp3lame"@),
            "audio"@,
        ),
{
    make_naming(
        &rule.output_ext,
        ".mp3",
        &rule.output_name,
        "{base}_{codec}_{num}.{ext}",
        text_or(&rule.audio_codec, "libmp3lame"),
        "audio",
    )
}

/// The audio arguments of a rule: no video, the codec, the bitrate unless
/// copying, the sample rate and the channel count.
pub fn build_audio_args(rule: &AudioRule) -> (r: Vec<String>)
    ensures
        views(r@) == audio_core_args(
            or_default(rule.audio_codec, "libmp3lame"@),
            rule.audio_bitrate,
            rule.sample_rate,
            rule.channels,
        ),
{
    let mut args: Vec<String> = Vec::new();
    push_audio_core(
        &mut args,
        text_or(&rule.audio_codec, "libmp3lame"),
        &rule.audio_bitrate,
        rule.sample_rate,
        rule.channels,
    );
    assert(views(args@) =~= audio_core_args(
        or_default(rule.audio_codec, "libmp3lame"@),
        rule.audio_bitrate,
        rule.sample_rate,
        rule.channels,
    ));
    args
}

/// The ffmpeg arguments converting `input` to `output`.
pub fn audio_command_args(rule: &AudioRule, input: &str, output: &str) -> (r: Vec<String>)
    ensures
        views(r@) == seq!["-y"@, "-i"@, input@] + audio_core_args(
            or_default(rule.audio_codec, "libmp3lame"@),
            rule.audio_bitrate,
            rule.sample_rate,
            rule.channels,
        ) + seq![output@],
{
    let mut args: Vec<String> = Vec::new();
    push_str(&mut args, "-y");
    push_str(&mut args, "-i");
    push_str(&mut args, input);
    let core = build_audio_args(rule);
    extend_strings(&mut args, core);
    push_str(&mut args, output);
    args
}

} // verus!
