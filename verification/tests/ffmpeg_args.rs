use convwatcher::common::config::WorkerIoMode;
use convwatcher::common::ffmpeg::{
    build_audio_args, build_hwaccel_args, build_video_args, parse_quality_value, INPUT_TOKEN, OUTPUT_TOKEN,
};
use convwatcher::common::protocol::{WireAudioRule, WireVideoRule};

#[test]
fn quality_parsing_matches_original() {
    assert_eq!(parse_quality_value("crf 23"), vec!["-crf", "23"]);
    assert_eq!(parse_quality_value("cq 18"), vec!["-cq", "18"]);
    assert_eq!(parse_quality_value("qp 25"), vec!["-qp", "25"]);
    assert_eq!(parse_quality_value("qscale 4"), vec!["-qscale:v", "4"]);
    assert_eq!(parse_quality_value("23"), vec!["-crf", "23"]);
    assert_eq!(parse_quality_value("5M"), vec!["-b:v", "5M"]);
}

#[test]
fn video_temp_args_have_placeholders() {
    let rule = WireVideoRule {
        codec: Some("libx264".into()),
        quality: Some("crf 20".into()),
        audio_codec: Some("aac".into()),
        audio_bitrate: Some("128k".into()),
        ..Default::default()
    };
    let args = build_video_args(&rule, "mp4", WorkerIoMode::Temp);
    assert!(args.contains(&INPUT_TOKEN.to_string()));
    assert!(args.contains(&OUTPUT_TOKEN.to_string()));
    assert_eq!(args[0], "-y");
    assert_eq!(args[1], "-i");
    assert_eq!(args[2], INPUT_TOKEN);
    let cv = args.iter().position(|a| a == "-c:v").unwrap();
    assert_eq!(args[cv + 1], "libx264");
}

#[test]
fn video_pipe_args_use_pipes() {
    let rule = WireVideoRule {
        codec: Some("libx264".into()),
        ..Default::default()
    };
    let args = build_video_args(&rule, "mkv", WorkerIoMode::Pipe);
    assert!(args.contains(&"pipe:0".to_string()));
    assert!(args.contains(&"pipe:1".to_string()));
    assert!(!args.contains(&INPUT_TOKEN.to_string()));
    let f = args.iter().position(|a| a == "-f").unwrap();
    assert_eq!(args[f + 1], "matroska");
}

#[test]
fn audio_args_copy_skips_bitrate() {
    let rule = WireAudioRule {
        audio_codec: Some("copy".into()),
        audio_bitrate: Some("320k".into()),
        ..Default::default()
    };
    let args = build_audio_args(&rule, "mka", WorkerIoMode::Pipe);
    assert!(!args.contains(&"-b:a".to_string()));
}

#[test]
fn video_args_full_sequence() {
    let rule = WireVideoRule {
        codec: Some("h264_vaapi".into()),
        quality: Some("qp 20".into()),
        ..Default::default()
    };
    let args = build_video_args(&rule, "mp4", WorkerIoMode::Temp);
    assert_eq!(
        args,
        vec![
            "-y",
            "-vaapi_device",
            "/dev/dri/renderD128",
            "-i",
            "{INPUT}",
            "-vf",
            "format=nv12,hwupload",
            "-c:v",
            "h264_vaapi",
            "-qp",
            "20",
            "-c:a",
            "aac",
            "-b:a",
            "128k",
            "{OUTPUT}"
        ]
    );
}

#[test]
fn audio_args_full_sequence() {
    let rule = WireAudioRule {
        audio_codec: None,
        audio_bitrate: Some("192k".into()),
        sample_rate: Some(44100),
        channels: Some(2),
    };
    let args = build_audio_args(&rule, "mp3", WorkerIoMode::Temp);
    assert_eq!(
        args,
        vec!["-y", "-i", "{INPUT}", "-vn", "-c:a", "libmp3lame", "-b:a", "192k", "-ar", "44100", "-ac", "2", "{OUTPUT}"]
    );
}

#[test]
fn quality_keyword_is_case_insensitive() {
    assert_eq!(parse_quality_value("  CRF 19 "), vec!["-crf", "19"]);
    assert_eq!(parse_quality_value("crf"), vec!["-crf", "23"]);
}

#[test]
fn hwaccel_qsv_has_no_post_args() {
    let (pre, post) = build_hwaccel_args("hevc_qsv");
    assert_eq!(pre, vec!["-init_hw_device", "qsv=qsv", "-hwaccel", "qsv", "-hwaccel_output_format", "qsv"]);
    assert!(post.is_empty());
}
