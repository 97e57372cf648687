//! ffmpeg argument construction shared by local processing and the remote
//! agent. The argument vector (not a process) is built, so one routine drives
//! a file-in/file-out run (`Temp`, with `{INPUT}`/`{OUTPUT}` placeholders for
//! the caller to fill) or a stdin/stdout run (`Pipe`).
use vstd::prelude::*;
use crate::common::config::{pipe_format_named, pipe_output_format, WorkerIoMode};
use crate::common::protocol::{WireAudioRule, WireVideoRule};
use crate::text::{
    contains_seq, contains_str, decimal, decimal_string, extend_strings, lowercase, owned,
    parse_u32, parse_u32_spec, push_str, split_words, str_eq, to_lowercase, trim_start_char, views,
    words,
};

verus! {

/// Placeholder for the input path in `Temp` mode.
pub const INPUT_TOKEN: &'static str = "{INPUT}";

/// Placeholder for the output path in `Temp` mode.
pub const OUTPUT_TOKEN: &'static str = "{OUTPUT}";

/// The text of an optional string, or `d` where it is absent.
pub open spec fn or_default(o: Option<String>, d: Seq<char>) -> Seq<char> {
    match o {
        Some(s) => s@,
        None => d,
    }
}

/// The quality arguments for a keyword `kw` (the lower-cased first word) and
/// the words `parts` of the quality string.
pub open spec fn quality_args_for(kw: Seq<char>, parts: Seq<Seq<char>>) -> Seq<Seq<char>> {
    let second = |d: Seq<char>|
        if parts.len() > 1 {
            parts[1]
        } else {
            d
        };
    if kw == "crf"@ {
        seq!["-crf"@, second("23"@)]
    } else if kw == "cq"@ {
        seq!["-cq"@, second("23"@)]
    } else if kw == "qp"@ {
        seq!["-qp"@, second("25"@)]
    } else if kw == "qp_i"@ {
        seq!["-qp_i"@, second("25"@)]
    } else if kw == "qscale"@ {
        seq!["-qscale:v"@, second("4"@)]
    } else if kw == "constant_bit_rate"@ {
        seq!["-b:v"@, second("3000"@)]
    } else if kw == "vbr"@ {
        seq!["-q:v"@, second("4"@)]
    } else {
        let first = parts[0];
        let last = first.last();
        if first.len() > 0 && (last == 'M' || last == 'm' || last == 'K' || last == 'k') {
            seq!["-b:v"@, first]
        } else if parse_u32_spec(first) is Some {
            seq!["-crf"@, first]
        } else {
            seq!["-crf"@, "23"@]
        }
    }
}

/// The ffmpeg rate-control arguments for a quality string such as
/// `"crf 23"`, `"cq 20"` or `"3000k"`.
pub open spec fn quality_args(q: Seq<char>) -> Seq<Seq<char>> {
    let parts = words(q);
    if parts.len() == 0 {
        seq!["-crf"@, "23"@]
    } else {
        quality_args_for(lowercase(parts[0]), parts)
    }
}

/// Arguments placed before `-i` for the codec's hardware backend.
pub open spec fn hwaccel_pre(codec: Seq<char>) -> Seq<Seq<char>> {
    if contains_seq(codec, "_vaapi"@) {
        seq!["-vaapi_device"@, "/dev/dri/renderD128"@]
    } else if contains_seq(codec, "_qsv"@) {
        seq![
            "-init_hw_device"@,
            "qsv=qsv"@,
            "-hwaccel"@,
            "qsv"@,
            "-hwaccel_output_format"@,
            "qsv"@,
        ]
    } else if contains_seq(codec, "_rkmpp"@) {
        seq![
            "-init_hw_device"@,
            "rkmpp=rkmpp_dev"@,
            "-hwaccel"@,
            "rkmpp"@,
            "-hwaccel_output_format"@,
            "drm_prime"@,
            "-hwaccel_device"@,
            "rkmpp_dev"@,
        ]
    } else {
        seq![]
    }
}

/// Arguments placed after the input for the codec's hardware backend.
pub open spec fn hwaccel_post(codec: Seq<char>) -> Seq<Seq<char>> {
    if contains_seq(codec, "_vaapi"@) {
        seq!["-vf"@, "format=nv12,hwupload"@]
    } else if contains_seq(codec, "_qsv"@) {
        seq![]
    } else if contains_seq(codec, "_rkmpp"@) {
        seq!["-vf"@, "format=nv12,hwupload"@]
    } else {
        seq![]
    }
}

/// The input arguments for the I/O mode.
pub open spec fn input_args(mode: WorkerIoMode) -> Seq<Seq<char>> {
    match mode {
        WorkerIoMode::Temp => seq!["-i"@, "{INPUT}"@],
        WorkerIoMode::Pipe => seq!["-i"@, "pipe:0"@],
    }
}

/// The output arguments for the I/O mode and output extension.
pub open spec fn output_args(ext: Seq<char>, mode: WorkerIoMode) -> Seq<Seq<char>> {
    match mode {
        WorkerIoMode::Temp => seq!["{OUTPUT}"@],
        WorkerIoMode::Pipe => seq![
            "-f"@,
            pipe_format_named(lowercase(trim_start_char(ext, '.'))),
            "pipe:1"@,
        ],
    }
}

/// The audio codec and bitrate arguments of a video conversion.
pub open spec fn video_audio_args(audio_codec: Seq<char>, bitrate: Option<String>) -> Seq<Seq<char>> {
    seq!["-c:a"@, audio_codec] + if audio_codec != "copy"@ {
        seq!["-b:a"@, or_default(bitrate, "128k"@)]
    } else {
        seq![]
    }
}

/// The full ffmpeg argument list of a video conversion.
pub open spec fn video_args(rule: WireVideoRule, ext: Seq<char>, mode: WorkerIoMode) -> Seq<Seq<char>> {
    let codec = or_default(rule.codec, "libx264"@);
    seq!["-y"@] + hwaccel_pre(codec) + input_args(mode) + hwaccel_post(codec) + seq!["-c:v"@, codec]
        + quality_args(or_default(rule.quality, "crf 23"@)) + video_audio_args(
        or_default(rule.audio_codec, "aac"@),
        rule.audio_bitrate,
    ) + output_args(ext, mode)
}

/// The codec, bitrate, sample-rate and channel arguments of an audio
/// conversion (video dropped with `-vn`).
pub open spec fn audio_core_args(
    audio_codec: Seq<char>,
    bitrate: Option<String>,
    sample_rate: Option<u32>,
    channels: Option<u8>,
) -> Seq<Seq<char>> {
    seq!["-vn"@, "-c:a"@, audio_codec] + (if audio_codec != "copy"@ && bitrate is Some {
        seq!["-b:a"@, bitrate->0@]
    } else {
        seq![]
    }) + (match sample_rate {
        Some(sr) => seq!["-ar"@, decimal(sr as nat)],
        None => seq![],
    }) + (match channels {
        Some(ch) => seq!["-ac"@, decimal(ch as nat)],
        None => seq![],
    })
}

/// The full ffmpeg argument list of an audio conversion.
pub open spec fn audio_args(rule: WireAudioRule, ext: Seq<char>, mode: WorkerIoMode) -> Seq<Seq<char>> {
    seq!["-y"@] + input_args(mode) + audio_core_args(
        or_default(rule.audio_codec, "libmp3lame"@),
        rule.audio_bitrate,
        rule.sample_rate,
        rule.channels,
    ) + output_args(ext, mode)
}

/// The text of an optional string, or `d` where it is absent.
pub fn text_or<'a>(o: &'a Option<String>, d: &'a str) -> (r: &'a str)
    ensures
        r@ == or_default(*o, d@),
{
    match o {
        Some(s) => s.as_str(),
        None => d,
    }
}

/// Two-element argument list.
fn pair(a: &str, b: &str) -> (r: Vec<String>)
    ensures
        views(r@) == seq![a@, b@],
{
    let mut v: Vec<String> = Vec::new();
    push_str(&mut v, a);
    push_str(&mut v, b);
    assert(views(v@) =~= seq![a@, b@]);
    v
}

/// Quality arguments from the lower-cased first word `kw` and the words of
/// the quality string (which must not be empty).
pub fn quality_args_from_words(kw: &str, parts: &Vec<String>) -> (r: Vec<String>)
    requires
        parts@.len() > 0,
    ensures
        views(r@) == quality_args_for(kw@, views(parts@)),
{
    let ghost ps = views(parts@);
    proof {
        assert(ps[0] == parts@[0]@);
        if parts@.len() > 1 {
            assert(ps[1] == parts@[1]@);
        }
    }
    let second = |d: &'static str| -> (r: String)
        ensures
            r@ == (if ps.len() > 1 {
                ps[1]
            } else {
                d@
            }),
        {
            if parts.len() > 1 {
                parts[1].clone()
            } else {
                owned(d)
            }
        };
    if str_eq(kw, "crf") {
        let mut v: Vec<String> = Vec::new();
        push_str(&mut v, "-crf");
        let s = second("23");
        push_str(&mut v, s.as_str());
        assert(views(v@) =~= quality_args_for(kw@, ps));
        v
    } else if str_eq(kw, "cq") {
        let mut v: Vec<String> = Vec::new();
        push_str(&mut v, "-cq");
        let s = second("23");
        push_str(&mut v, s.as_str());
        assert(views(v@) =~= quality_args_for(kw@, ps));
        v
    } else if str_eq(kw, "qp") {
        let mut v: Vec<String> = Vec::new();
        push_str(&mut v, "-qp");
        let s = second("25");
        push_str(&mut v, s.as_str());
        assert(views(v@) =~= quality_args_for(kw@, ps));
        v
    } else if str_eq(kw, "qp_i") {
        let mut v: Vec<String> = Vec::new();
        push_str(&mut v, "-qp_i");
        let s = second("25");
        push_str(&mut v, s.as_str());
        assert(views(v@) =~= quality_args_for(kw@, ps));
        v
    } else if str_eq(kw, "qscale") {
        let mut v: Vec<String> = Vec::new();
        push_str(&mut v, "-qscale:v");
        let s = second("4");
        push_str(&mut v, s.as_str());
        assert(views(v@) =~= quality_args_for(kw@, ps));
        v
    } else if str_eq(kw, "constant_bit_rate") {
        let mut v: Vec<String> = Vec::new();
        push_str(&mut v, "-b:v");
        let s = second("3000");
        push_str(&mut v, s.as_str());
        assert(views(v@) =~= quality_args_for(kw@, ps));
        v
    } else if str_eq(kw, "vbr") {
        let mut v: Vec<String> = Vec::new();
        push_str(&mut v, "-q:v");
        let s = second("4");
        push_str(&mut v, s.as_str());
        assert(views(v@) =~= quality_args_for(kw@, ps));
        v
    } else {
        let first = parts[0].as_str();
        let n = first.unicode_len();
        let last_is_rate = n > 0 && {
            let c = first.get_char(n - 1);
            c == 'M' || c == 'm' || c == 'K' || c == 'k'
        };
        if last_is_rate {
            let v = pair("-b:v", first);
            assert(views(v@) =~= quality_args_for(kw@, ps));
            v
        } else if parse_u32(first).is_some() {
            let v = pair("-crf", first);
            assert(views(v@) =~= quality_args_for(kw@, ps));
            v
        } else {
            let v = pair("-crf", "23");
            assert(views(v@) =~= quality_args_for(kw@, ps));
            v
        }
    }
}

/// Parses a quality string (e.g. "crf 23", "cq 20", "3000k") into ffmpeg
/// rate-control arguments; an empty or unrecognised string gives `-crf 23`.
pub fn parse_quality_value(quality_str: &str) -> (r: Vec<String>)
    ensures
        views(r@) == quality_args(quality_str@),
{
    let parts = split_words(quality_str);
    if parts.len() == 0 {
        let v = pair("-crf", "23");
        return v;
    }
    proof {
        assert(views(parts@)[0] == parts@[0]@);
    }
    let kw = to_lowercase(parts[0].as_str());
    quality_args_from_words(kw.as_str(), &parts)
}

/// Hardware-acceleration arguments for the codec: those placed before and
/// those placed after the input.
pub fn build_hwaccel_args(codec: &str) -> (r: (Vec<String>, Vec<String>))
    ensures
        views(r.0@) == hwaccel_pre(codec@),
        views(r.1@) == hwaccel_post(codec@),
{
    proof {
        reveal_strlit("_vaapi");
        reveal_strlit("_qsv");
        reveal_strlit("_rkmpp");
    }
    let mut pre: Vec<String> = Vec::new();
    let mut post: Vec<String> = Vec::new();
    if contains_str(codec, "_vaapi") {
        push_str(&mut pre, "-vaapi_device");
        push_str(&mut pre, "/dev/dri/renderD128");
        push_str(&mut post, "-vf");
        push_str(&mut post, "format=nv12,hwupload");
    } else if contains_str(codec, "_qsv") {
        push_str(&mut pre, "-init_hw_device");
        push_str(&mut pre, "qsv=qsv");
        push_str(&mut pre, "-hwaccel");
        push_str(&mut pre, "qsv");
        push_str(&mut pre, "-hwaccel_output_format");
        push_str(&mut pre, "qsv");
    } else if contains_str(codec, "_rkmpp") {
        push_str(&mut pre, "-init_hw_device");
        push_str(&mut pre, "rkmpp=rkmpp_dev");
        push_str(&mut pre, "-hwaccel");
        push_str(&mut pre, "rkmpp");
        push_str(&mut pre, "-hwaccel_output_format");
        push_str(&mut pre, "drm_prime");
        push_str(&mut pre, "-hwaccel_device");
        push_str(&mut pre, "rkmpp_dev");
        push_str(&mut post, "-vf");
        push_str(&mut post, "format=nv12,hwupload");
    }
    assert(views(pre@) =~= hwaccel_pre(codec@));
    assert(views(post@) =~= hwaccel_post(codec@));
    (pre, post)
}

/// Appends the input arguments for the mode.
fn push_input(args: &mut Vec<String>, io_mode: WorkerIoMode)
    ensures
        views(final(args)@) == views(old(args)@) + input_args(io_mode),
{
    let ghost start = views(args@);
    match io_mode {
        WorkerIoMode::Temp => {
            push_str(args, "-i");
            push_str(args, INPUT_TOKEN);
        },
        WorkerIoMode::Pipe => {
            push_str(args, "-i");
            push_str(args, "pipe:0");
        },
    }
    assert(views(args@) =~= start + input_args(io_mode));
}

/// Appends the output arguments for the mode.
pub fn push_output(args: &mut Vec<String>, output_ext: &str, io_mode: WorkerIoMode)
    ensures
        views(final(args)@) == views(old(args)@) + output_args(output_ext@, io_mode),
{
    let ghost start = views(args@);
    match io_mode {
        WorkerIoMode::Temp => {
            push_str(args, OUTPUT_TOKEN);
        },
        WorkerIoMode::Pipe => {
            push_str(args, "-f");
            push_str(args, pipe_output_format(output_ext));
            push_str(args, "pipe:1");
        },
    }
    assert(views(args@) =~= start + output_args(output_ext@, io_mode));
}

/// The full ffmpeg argument list for a video conversion.
pub fn build_video_args(rule: &WireVideoRule, output_ext: &str, io_mode: WorkerIoMode) -> (r: Vec<
    String,
>)
    ensures
        views(r@) == video_args(*rule, output_ext@, io_mode),
{
    let quality = text_or(&rule.quality, "crf 23");
    let quality_args = parse_quality_value(quality);
    let codec = text_or(&rule.codec, "libx264");
    let (pre, post) = build_hwaccel_args(codec);
    let mut args: Vec<String> = Vec::new();
    push_str(&mut args, "-y");
    extend_strings(&mut args, pre);
    push_input(&mut args, io_mode);
    extend_strings(&mut args, post);
    push_str(&mut args, "-c:v");
    push_str(&mut args, codec);
    extend_strings(&mut args, quality_args);
    let ghost before_audio = views(args@);
    let audio_codec = text_or(&rule.audio_codec, "aac");
    push_str(&mut args, "-c:a");
    push_str(&mut args, audio_codec);
    if !str_eq(audio_codec, "copy") {
        push_str(&mut args, "-b:a");
        push_str(&mut args, text_or(&rule.audio_bitrate, "128k"));
    }
    assert(views(args@) =~= before_audio + video_audio_args(audio_codec@, rule.audio_bitrate));
    push_output(&mut args, output_ext, io_mode);
    assert(views(args@) =~= video_args(*rule, output_ext@, io_mode));
    args
}

/// Appends the codec, bitrate, sample-rate and channel arguments of an audio
/// conversion.
pub fn push_audio_core(
    args: &mut Vec<String>,
    audio_codec: &str,
    bitrate: &Option<String>,
    sample_rate: Option<u32>,
    channels: Option<u8>,
)
    ensures
        views(final(args)@) == views(old(args)@) + audio_core_args(
            audio_codec@,
            *bitrate,
            sample_rate,
            channels,
        ),
{
    let ghost start = views(args@);
    push_str(args, "-vn");
    push_str(args, "-c:a");
    push_str(args, audio_codec);
    let ghost after_codec = views(args@);
    if !str_eq(audio_codec, "copy") {
        if let Some(b) = bitrate {
            push_str(args, "-b:a");
            push_str(args, b.as_str());
        }
    }
    let ghost after_rate = views(args@);
    if let Some(sr) = sample_rate {
        push_str(args, "-ar");
        let d = decimal_string(sr as u64);
        push_str(args, d.as_str());
    }
    let ghost after_sr = views(args@);
    if let Some(ch) = channels {
        push_str(args, "-ac");
        let d = decimal_string(ch as u64);
        push_str(args, d.as_str());
    }
    assert(views(args@) =~= start + audio_core_args(audio_codec@, *bitrate, sample_rate, channels));
}

/// The full ffmpeg argument list for an audio conversion.
pub fn build_audio_args(rule: &WireAudioRule, output_ext: &str, io_mode: WorkerIoMode) -> (r: Vec<
    String,
>)
    ensures
        views(r@) == audio_args(*rule, output_ext@, io_mode),
{
    let mut args: Vec<String> = Vec::new();
    push_str(&mut args, "-y");
    push_input(&mut args, io_mode);
    let audio_codec = text_or(&rule.audio_codec, "libmp3lame");
    push_audio_core(&mut args, audio_codec, &rule.audio_bitrate, rule.sample_rate, rule.channels);
    push_output(&mut args, output_ext, io_mode);
    assert(views(args@) =~= audio_args(*rule, output_ext@, io_mode));
    args
}

/// The audio settings of a video conversion reach ffmpeg: somewhere in the
/// argument list, `-c:a` is followed by the rule's audio codec (`aac` when
/// unset); unless that codec is `copy`, it is then followed by `-b:a` and
/// the rule's audio bitrate, or `128k` when the rule sets none.
pub proof fn law_video_audio_settings(rule: WireVideoRule, ext: Seq<char>, mode: WorkerIoMode)
    ensures
        ({
            let a = video_args(rule, ext, mode);
            let codec = match rule.audio_codec {
                Some(c) => c@,
                None => "aac"@,
            };
            exists|i: int|
                0 <= i && i + 2 <= a.len() && #[trigger] a[i] == "-c:a"@ && a[i + 1] == codec && (codec != "copy"@
                    ==> i + 4 <= a.len() && a[i + 2] == "-b:a"@ && a[i + 3] == match rule.audio_bitrate {
                    Some(b) => b@,
                    None => "128k"@,
                })
        }),
{
    let vcodec = or_default(rule.codec, "libx264"@);
    let codec = or_default(rule.audio_codec, "aac"@);
    let pre = seq!["-y"@] + hwaccel_pre(vcodec) + input_args(mode) + hwaccel_post(vcodec) + seq!["-c:v"@, vcodec]
        + quality_args(or_default(rule.quality, "crf 23"@));
    let mid = video_audio_args(codec, rule.audio_bitrate);
    let a = video_args(rule, ext, mode);
    assert(a == pre + mid + output_args(ext, mode));
    let i = pre.len() as int;
    assert(a[i] == mid[0]);
    assert(a[i + 1] == mid[1]);
    if codec != "copy"@ {
        assert(a[i + 2] == mid[2]);
        assert(a[i + 3] == mid[3]);
    }
}

} // verus!
