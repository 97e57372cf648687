use convwatcher::config::codec_registry::{
    resolve_audio_rule, resolve_custom_rule, resolve_document_rule, resolve_image_rule, resolve_pdf_rule,
    resolve_video_rule, resolve_watchers, validate_preset_path, CodecPreset, CodecPresetPaths, CodecRegistry,
};
use convwatcher::config::watch::{PdfMode, PdfQuality, VideoRule, WatchConfig, WatchType};

fn test_registry() -> CodecRegistry {
    let mut registry = CodecRegistry::new();
    registry.video.insert(
        "libx264".to_string(),
        CodecPreset {
            codec: Some("libx264".to_string()),
            quality: Some("crf 23".to_string()),
            audio_codec: Some("aac".to_string()),
            audio_bitrate: Some("128k".to_string()),
            output_ext: Some(".mp4".to_string()),
            ..Default::default()
        },
    );
    registry.video.insert(
        "h264_nvenc".to_string(),
        CodecPreset {
            codec: Some("h264_nvenc".to_string()),
            quality: Some("cq 23".to_string()),
            audio_codec: Some("copy".to_string()),
            audio_bitrate: None,
            output_ext: Some(".mp4".to_string()),
            ..Default::default()
        },
    );
    registry.image.insert(
        "jpeg_80".to_string(),
        CodecPreset {
            quality: Some("80".to_string()),
            output_ext: Some(".jpg".to_string()),
            ..Default::default()
        },
    );
    registry.audio.insert(
        "mp3_192".to_string(),
        CodecPreset {
            audio_codec: Some("libmp3lame".to_string()),
            audio_bitrate: Some("192k".to_string()),
            output_ext: Some(".mp3".to_string()),
            ..Default::default()
        },
    );
    registry.pdf.insert(
        "pdf_ebook".to_string(),
        CodecPreset {
            mode: Some(PdfMode::Compress),
            pdf_quality: Some(PdfQuality::Ebook),
            output_ext: Some(".pdf".to_string()),
            ..Default::default()
        },
    );
    registry.document.insert(
        "docx_to_pdf".to_string(),
        CodecPreset {
            output_ext: Some(".pdf".to_string()),
            pdf_engine: Some("weasyprint".to_string()),
            ..Default::default()
        },
    );
    registry
}

fn plain_video_rule(preset: &str, subfolder: Option<&str>, exts: &[&str]) -> VideoRule {
    VideoRule {
        preset: preset.to_string(),
        subfolder: subfolder.map(|s| s.to_string()),
        input_extensions: exts.iter().map(|e| e.to_string()).collect(),
        output_ext: None,
        codec: None,
        quality: None,
        audio_codec: None,
        audio_bitrate: None,
        output_name: None,
        check_duration: None,
        min_duration_ratio_bits: None,
    }
}

#[test]
fn test_resolve_video_rule_from_preset() {
    let registry = test_registry();
    let rule = resolve_video_rule(
        "libx264",
        vec![".mp4".into()],
        None,
        None,
        None,
        None,
        None,
        None,
        None,
        None,
        None,
        &registry,
    )
    .unwrap();

    assert_eq!(rule.codec.as_deref(), Some("libx264"));
    assert_eq!(rule.quality.as_deref(), Some("crf 23"));
    assert_eq!(rule.audio_codec.as_deref(), Some("aac"));
    assert_eq!(rule.audio_bitrate.as_deref(), Some("128k"));
    assert_eq!(rule.output_ext.as_deref(), Some(".mp4"));
}

#[test]
fn test_resolve_video_rule_override_preset() {
    let registry = test_registry();
    let rule = resolve_video_rule(
        "libx264",
        vec![".mp4".into()],
        None,
        None,
        None,
        None,
        None,
        Some("crf 18".to_string()),
        None,
        None,
        None,
        &registry,
    )
    .unwrap();

    assert_eq!(rule.quality.as_deref(), Some("crf 18"));
    assert_eq!(rule.codec.as_deref(), Some("libx264"));
}

#[test]
fn test_resolve_video_rule_missing_preset() {
    let registry = test_registry();
    let result = resolve_video_rule(
        "nonexistent",
        vec![".mp4".into()],
        None,
        None,
        None,
        None,
        None,
        None,
        None,
        None,
        None,
        &registry,
    );
    assert!(result.is_err());
    assert!(result.unwrap_err().message().contains("not found"));
}

#[test]
fn test_resolve_image_rule() {
    let registry = test_registry();
    let rule = resolve_image_rule("jpeg_80", vec![".tiff".into()], None, None, None, None, None, &registry).unwrap();

    assert_eq!(rule.quality, Some(80));
    assert_eq!(rule.output_ext.as_deref(), Some(".jpg"));
}

#[test]
fn test_resolve_audio_rule() {
    let registry = test_registry();
    let rule = resolve_audio_rule("mp3_192", vec![".wav".into()], None, None, None, None, None, None, None, &registry)
        .unwrap();

    assert_eq!(rule.audio_codec.as_deref(), Some("libmp3lame"));
    assert_eq!(rule.audio_bitrate.as_deref(), Some("192k"));
}

#[test]
fn test_resolve_pdf_rule() {
    let registry = test_registry();
    let rule = resolve_pdf_rule(
        "pdf_ebook",
        vec![".pdf".into()],
        None,
        None,
        None,
        None,
        None,
        None,
        None,
        None,
        &registry,
    )
    .unwrap();

    assert_eq!(rule.mode, Some(PdfMode::Compress));
}

#[test]
fn test_resolve_document_rule() {
    let registry = test_registry();
    let rule = resolve_document_rule(
        "docx_to_pdf",
        vec![".docx".into()],
        None,
        None,
        None,
        None,
        None,
        None,
        None,
        None,
        None,
        None,
        None,
        &registry,
    )
    .unwrap();

    assert_eq!(rule.output_ext.as_deref(), Some(".pdf"));
    assert_eq!(rule.pdf_engine.as_deref(), Some("weasyprint"));
}

#[test]
fn test_resolve_watchers_multiple_rules() {
    let registry = test_registry();
    let watchers = vec![WatchConfig {
        name: "test".to_string(),
        subfolders: Vec::new(),
        watch_folder: "/app/inputs/test/".to_string(),
        output_folder: "/app/outputs/test/".to_string(),
        watch_type: WatchType::Video {
            rules: vec![
                plain_video_rule("libx264", None, &[".mp4"]),
                plain_video_rule("h264_nvenc", Some("gpu"), &[".mxf"]),
            ],
        },
    }];

    let resolved = resolve_watchers(watchers, &registry).unwrap();
    assert_eq!(resolved.len(), 1);

    if let WatchType::Video { rules } = &resolved[0].watch_type {
        assert_eq!(rules.len(), 2);
        assert_eq!(rules[0].codec.as_deref(), Some("libx264"));
        assert_eq!(rules[1].codec.as_deref(), Some("h264_nvenc"));
        assert_eq!(rules[1].audio_codec.as_deref(), Some("copy"));
    } else {
        panic!("Expected Video type");
    }
}

#[test]
fn test_codec_preset_paths_defaults() {
    let paths = CodecPresetPaths::default();
    assert_eq!(paths.video, "video_codecs.yaml");
    assert_eq!(paths.audio, "audio_codecs.yaml");
    assert_eq!(paths.image, "image_codecs.yaml");
    assert_eq!(paths.pdf, "pdf_presets.yaml");
    assert_eq!(paths.document, "document_presets.yaml");
}

#[test]
fn resolve_watchers_reports_first_missing_preset() {
    let registry = test_registry();
    let watchers = vec![WatchConfig {
        name: "w".to_string(),
        subfolders: Vec::new(),
        watch_folder: "/in/".to_string(),
        output_folder: "/out/".to_string(),
        watch_type: WatchType::Video {
            rules: vec![
                plain_video_rule("libx264", None, &[".mp4"]),
                plain_video_rule("first_missing", None, &[".mkv"]),
                plain_video_rule("second_missing", None, &[".avi"]),
            ],
        },
    }];
    let err = resolve_watchers(watchers, &registry).unwrap_err();
    assert_eq!(err.message(), "Video preset 'first_missing' not found in video_codecs.yaml");
}

#[test]
fn resolve_video_rule_builtin_defaults_and_ratio() {
    let mut registry = CodecRegistry::new();
    registry.video.insert("bare".to_string(), CodecPreset::default());
    let rule = resolve_video_rule("bare", vec![], None, None, None, None, None, None, None, None, None, &registry)
        .unwrap();
    assert_eq!(rule.codec.as_deref(), Some("libx264"));
    assert_eq!(rule.quality.as_deref(), Some("crf 23"));
    assert_eq!(rule.output_ext.as_deref(), Some(".mp4"));
    assert_eq!(rule.output_name.as_deref(), Some("{base}_{codec}_{num}.{ext}"));
    assert_eq!(rule.check_duration, Some(true));
    assert_eq!(rule.min_duration_ratio_bits, Some(0.9f64.to_bits()));
}

#[test]
fn resolve_custom_rule_needs_command() {
    let mut registry = CodecRegistry::new();
    registry.custom.insert("nocmd".to_string(), CodecPreset::default());
    let err = resolve_custom_rule("nocmd", vec![], None, None, None, None, None, &registry).unwrap_err();
    assert_eq!(err.message(), "Custom preset 'nocmd' has no command field");
    let ok = resolve_custom_rule("nocmd", vec![], None, None, None, Some("cp {input} {output}".into()), None, &registry)
        .unwrap();
    assert_eq!(ok.command.as_deref(), Some("cp {input} {output}"));
    assert_eq!(ok.output_name.as_deref(), Some("{base}_custom.{ext}"));
    let missing = resolve_custom_rule("absent", vec![], None, None, None, None, None, &registry).unwrap_err();
    assert_eq!(missing.message(), "Custom preset 'absent' not found in custom_presets.yaml");
}

#[test]
fn preset_path_checks() {
    assert!(validate_preset_path("video_codecs.yaml", "video").is_ok());
    assert_eq!(
        validate_preset_path("/etc/passwd", "video").unwrap_err().message(),
        "codec_presets.video: absolute path not allowed, got '/etc/passwd'"
    );
    assert_eq!(
        validate_preset_path("../x.yaml", "audio").unwrap_err().message(),
        "codec_presets.audio: path must not contain '..', got '../x.yaml'"
    );
}
