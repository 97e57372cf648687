use convwatcher::cli::LogLevel;
use convwatcher::config::global::{
    duration_parts, threshold_parts, DiskSpaceConfig, DiskSpaceThreshold, DurationUnit, GlobalConfig, InputFileAction,
    ThresholdText,
};
use convwatcher::config::watch::{AudioRule, DocumentRule, ImageRule, PdfMode, PdfQuality, PdfRule, VideoRule};
use convwatcher::logs::error_logger::{conversion_failure_message, ErrorLogger};
use convwatcher::processor::audio::{audio_command_args, audio_naming};
use convwatcher::processor::disk::{below_mb_threshold, folders_to_check, parse_df, DfFigures};
use convwatcher::processor::document::{document_naming, pandoc_command_args};
use convwatcher::processor::image::{detect_format, image_plan, image_too_large, ImageKind};
use convwatcher::processor::pdf::{pdf_command, pdf_failure_label, PdfError};
use convwatcher::processor::video::{checks_duration, video_command_args, video_naming};
use convwatcher::utils::hardware::{encoder_names_of, hardware_info_from, HardwareAccelInfo};
use convwatcher::utils::path::{input_file_disposition, marked_name, InputDisposition};

fn video(codec: Option<&str>, audio: Option<&str>) -> VideoRule {
    VideoRule {
        preset: "p".into(),
        subfolder: None,
        input_extensions: vec![],
        output_ext: None,
        codec: codec.map(|s| s.to_string()),
        quality: None,
        audio_codec: audio.map(|s| s.to_string()),
        audio_bitrate: None,
        output_name: None,
        check_duration: None,
        min_duration_ratio_bits: None,
    }
}

#[test]
fn local_video_command() {
    let args = video_command_args(&video(Some("hevc_qsv"), Some("copy")), "/in a.mov", "/out/b.mp4");
    assert_eq!(
        args,
        vec![
            "-y",
            "-init_hw_device",
            "qsv=qsv",
            "-hwaccel",
            "qsv",
            "-hwaccel_output_format",
            "qsv",
            "-i",
            "/in a.mov",
            "-c:v",
            "hevc_qsv",
            "-crf",
            "23",
            "-c:a",
            "copy",
            "/out/b.mp4"
        ]
    );
    let n = video_naming(&video(None, None));
    assert_eq!((n.ext.as_str(), n.template.as_str(), n.codec.as_str(), n.label.as_str()), ("mp4", "{base}_{codec}_{num}.{ext}", "libx264", "video"));
    assert!(checks_duration(&video(None, None)));
}

#[test]
fn local_audio_command() {
    let rule = AudioRule {
        preset: "p".into(),
        subfolder: None,
        input_extensions: vec![],
        output_ext: Some("..ogg".into()),
        audio_codec: Some("libvorbis".into()),
        audio_bitrate: Some("160k".into()),
        sample_rate: None,
        channels: Some(1),
        output_name: None,
    };
    assert_eq!(
        audio_command_args(&rule, "/i.wav", "/o.ogg"),
        vec!["-y", "-i", "/i.wav", "-vn", "-c:a", "libvorbis", "-b:a", "160k", "-ac", "1", "/o.ogg"]
    );
    assert_eq!(audio_naming(&rule).ext, "ogg");
}

#[test]
fn pandoc_command() {
    let rule = DocumentRule {
        preset: "p".into(),
        subfolder: None,
        input_extensions: vec![],
        output_ext: None,
        toc: Some(true),
        toc_depth: Some(2),
        css: Some("s.css".into()),
        template: None,
        standalone: Some(false),
        metadata: Some(vec!["title=X".into()]),
        pdf_engine: Some("weasyprint".into()),
        options: Some(vec!["--quiet".into()]),
        output_name: None,
    };
    assert_eq!(
        pandoc_command_args(&rule, "/a.md", "/a.pdf"),
        vec!["/a.md", "-o", "/a.pdf", "--toc", "--toc-depth=2", "--css=s.css", "-Mtitle=X", "--pdf-engine=weasyprint", "--quiet"]
    );
    let n = document_naming(&rule);
    assert_eq!((n.ext.as_str(), n.template.as_str()), ("pdf", "{base}_converted.{ext}"));
}

fn pdf(mode: Option<PdfMode>) -> PdfRule {
    PdfRule {
        preset: "p".into(),
        subfolder: None,
        input_extensions: vec![],
        output_ext: None,
        mode,
        quality: Some(PdfQuality::Ebook),
        pdfa_version: Some("3b".into()),
        resolution: None,
        password: None,
        output_name: None,
    }
}

#[test]
fn pdf_commands_per_mode() {
    let c = pdf_command(&pdf(None), "/i.pdf", "/o.pdf").unwrap();
    assert_eq!(c.program, "gs");
    assert!(c.args.contains(&"-dPDFSETTINGS=/ebook".to_string()));
    assert_eq!(c.args.last().unwrap(), "/i.pdf");
    let c = pdf_command(&pdf(Some(PdfMode::PdfA)), "/i.pdf", "/o.pdf").unwrap();
    assert!(c.args.contains(&"-dPDFA=3".to_string()));
    let c = pdf_command(&pdf(Some(PdfMode::ExtractImages)), "/i.pdf", "/out/pages.png").unwrap();
    assert_eq!(c.args, vec!["-png", "-r", "300", "/i.pdf", "/out/pages"]);
    let c = pdf_command(&pdf(Some(PdfMode::Encrypt)), "/i.pdf", "/o.pdf").unwrap();
    assert_eq!(c.args, vec!["--encrypt", "default", "default", "256", "--", "/i.pdf", "/o.pdf"]);
    assert_eq!(pdf_command(&pdf(Some(PdfMode::Merge)), "/i", "/o").unwrap_err(), PdfError::MergeUnsupported);
    assert_eq!(
        PdfError::MergeUnsupported.message(),
        "PDF merge mode: place multiple PDFs in input folder"
    );
}

#[test]
fn image_decisions() {
    assert_eq!(detect_format(".JPEG"), ImageKind::Jpeg);
    assert_eq!(detect_format("tif"), ImageKind::Tiff);
    assert_eq!(detect_format(".heic"), ImageKind::Png);
    assert!(image_too_large(100 * 1024 * 1024 + 1));
    assert!(!image_too_large(100 * 1024 * 1024));
    let rule = ImageRule {
        preset: "p".into(),
        subfolder: None,
        input_extensions: vec![],
        output_ext: Some(".jpg".into()),
        quality: Some(250),
        transparent: None,
        output_name: None,
    };
    let plan = image_plan(&rule);
    assert_eq!(plan.format, ImageKind::Jpeg);
    assert_eq!(plan.jpeg_quality, 100);
    assert!(!plan.keep_alpha);
}

#[test]
fn disk_report_parsing() {
    let report = "Filesystem 1024-blocks Used Available Capacity Mounted on\n/dev/sda1 1000000 400000 600000 40% /\n";
    assert_eq!(parse_df(report), Some(DfFigures { available_kb: 600000, total_kb: 1000000 }));
    assert_eq!(parse_df("only one line\n"), None);
    assert_eq!(parse_df("h\na b c\n"), None);
    assert_eq!(parse_df("h\na x y z\n"), Some(DfFigures { available_kb: 0, total_kb: 0 }));
    assert!(below_mb_threshold(1023, 1));
    assert!(!below_mb_threshold(1024, 1));
    let cfg = DiskSpaceConfig { check_interval_s: 60, threshold: DiskSpaceThreshold::Mb(500), check_output: true, check_watch: false };
    assert_eq!(folders_to_check(&cfg, "/o", "/w"), vec![("output".to_string(), "/o".to_string())]);
}

#[test]
fn duration_and_threshold_text() {
    assert_eq!(duration_parts(" 500ms "), (DurationUnit::Millis, "500".to_string()));
    assert_eq!(duration_parts("2 s"), (DurationUnit::Seconds, "2".to_string()));
    assert_eq!(duration_parts("1.5m"), (DurationUnit::Minutes, "1.5".to_string()));
    assert_eq!(duration_parts("3h"), (DurationUnit::Hours, "3".to_string()));
    assert_eq!(duration_parts("42"), (DurationUnit::Bare, "42".to_string()));
    assert_eq!(threshold_parts("10 %"), ThresholdText::Percent("10".into()));
    assert_eq!(threshold_parts("1.5GB"), ThresholdText::Gb("1.5".into()));
    assert_eq!(threshold_parts("750"), ThresholdText::Mb(Some(750)));
    assert_eq!(threshold_parts("lots"), ThresholdText::Mb(None));
}

#[test]
fn hardware_listing() {
    let listing: Vec<String> = vec![
        "Encoders:".into(),
        " V..... = Video".into(),
        " ------".into(),
        " V....D h264_nvenc           NVIDIA NVENC H.264 encoder".into(),
        " V....D h264_vaapi           H.264/AVC (VAAPI)".into(),
        " V....D libx264              libx264 H.264".into(),
    ];
    assert_eq!(encoder_names_of(&listing), vec!["=", "h264_nvenc", "h264_vaapi", "libx264"]);
    let info = hardware_info_from(listing.clone(), Some(vec!["renderD128".into()]));
    assert!(info.nvenc_available && info.ffmpeg_vaapi_support && info.vaapi_available);
    assert_eq!(info.vaapi_devices, vec!["/dev/dri/renderD128"]);
    assert!(!info.qsv_available && !info.rkmpp_available);
    let none = hardware_info_from(listing, None);
    assert!(!none.vaapi_available && none.vaapi_devices.is_empty());
    let empty = HardwareAccelInfo::default();
    assert!(empty.all_encoders.is_empty());
}

#[test]
fn error_log_lines_and_rotation() {
    let mut g = GlobalConfig::default();
    g.log.errors_file = "/var/log/cw/errors.log".into();
    g.log.max_error_log_size_mb = 1;
    let logger = ErrorLogger::new(&g);
    assert_eq!(logger.line("2024-01-01 00:00:00", "boom", "a.mp4", "video"), "2024-01-01 00:00:00 [video] a.mp4 — boom\n");
    assert!(!logger.needs_rotation(1048576));
    assert!(logger.needs_rotation(1048577));
    assert_eq!(logger.rotated_path(), "/var/log/cw/errors.log.old");
    assert_eq!(conversion_failure_message("video", "x"), "video conversion failed: x");
}

#[test]
fn input_file_handling() {
    assert_eq!(input_file_disposition(InputFileAction::Mark, true), InputDisposition::MarkDone);
    assert_eq!(input_file_disposition(InputFileAction::Delete, false), InputDisposition::MarkError);
    assert_eq!(input_file_disposition(InputFileAction::Delete, true), InputDisposition::Delete);
    assert_eq!(input_file_disposition(InputFileAction::Leave, false), InputDisposition::Keep);
    assert_eq!(marked_name("a.mp4", true), "a.mp4.done");
    assert_eq!(marked_name("a.mp4", false), "a.mp4.error");
}

#[test]
fn log_level_filters() {
    assert_eq!(LogLevel::Warn.as_log_level_filter(), log::LevelFilter::Warn);
    assert_eq!(LogLevel::Debug.as_log_level_filter(), log::LevelFilter::Debug);
}

#[test]
fn test_image_size_precheck_rejects_oversize() {
    assert!(image_too_large(101 * 1024 * 1024));
}

#[test]
fn test_image_size_precheck_allows_small() {
    assert!(!image_too_large(67));
}

#[test]
fn pdf_failures_name_their_tool() {
    assert_eq!(pdf_failure_label(&pdf(None)), "Ghostscript");
    assert_eq!(pdf_failure_label(&pdf(Some(PdfMode::PdfA))), "Ghostscript PDF/A");
    assert_eq!(pdf_failure_label(&pdf(Some(PdfMode::Encrypt))), "qpdf encrypt");
    assert_eq!(pdf_failure_label(&pdf(Some(PdfMode::Analyze))), "pdfinfo");
}
