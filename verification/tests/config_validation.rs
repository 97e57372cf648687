use convwatcher::config::global::{GlobalConfig, HistoryConfig, LogConfig};
use convwatcher::config::watch::{
    AudioRule, CustomRule, DocumentRule, ImageRule, PdfRule, VideoRule, WatchConfig, WatchType,
};
use convwatcher::config::{default_setup, directories_plan, quick_watch_config, validate_absolute_path, validate_config};

#[test]
fn test_validate_absolute_path_rejects_relative() {
    assert!(validate_absolute_path("/app/inputs/", "test").is_ok());
    assert!(validate_absolute_path("/usr/bin/ffmpeg", "test").is_ok());
    assert!(validate_absolute_path("./inputs/", "test").is_err());
    assert!(validate_absolute_path("../config/", "test").is_err());
    assert!(validate_absolute_path("config.yaml", "test").is_err());
}

fn test_global() -> GlobalConfig {
    GlobalConfig {
        log: LogConfig {
            errors_file: "/app/logs/errors.log".to_string(),
            ..Default::default()
        },
        history: HistoryConfig {
            file: "/app/logs/history.json".to_string(),
            ..Default::default()
        },
        ..Default::default()
    }
}

fn video_rule(exts: Vec<String>) -> VideoRule {
    VideoRule {
        preset: "libx264".to_string(),
        subfolder: None,
        input_extensions: exts,
        output_ext: None,
        codec: None,
        quality: None,
        audio_codec: None,
        audio_bitrate: None,
        output_name: None,
        check_duration: None,
        min_duration_ratio_bits: None,
    }
}

#[test]
fn test_validate_empty_watch_folder() {
    let global = test_global();
    let watchers = vec![WatchConfig {
        name: "test".to_string(),
        subfolders: Vec::new(),
        watch_folder: String::new(),
        output_folder: "/app/outputs/test/".to_string(),
        watch_type: WatchType::Video { rules: vec![] },
    }];
    let result = validate_config(&global, &watchers);
    assert!(result.is_err());
    let err = result.unwrap_err().message();
    assert!(err.contains("watch_folder must be an absolute path"));
}

#[test]
fn test_validate_empty_output_folder() {
    let global = test_global();
    let watchers = vec![WatchConfig {
        name: "test".to_string(),
        subfolders: Vec::new(),
        watch_folder: "/app/inputs/test/".to_string(),
        output_folder: String::new(),
        watch_type: WatchType::Video { rules: vec![] },
    }];
    let result = validate_config(&global, &watchers);
    assert!(result.is_err());
    let err = result.unwrap_err().message();
    assert!(err.contains("output_folder must be an absolute path"));
}

#[test]
fn test_validate_empty_input_extensions() {
    let global = test_global();
    let watchers = vec![WatchConfig {
        name: "test".to_string(),
        subfolders: Vec::new(),
        watch_folder: "/app/inputs/test/".to_string(),
        output_folder: "/app/outputs/test/".to_string(),
        watch_type: WatchType::Video { rules: vec![video_rule(vec![])] },
    }];
    let result = validate_config(&global, &watchers);
    assert!(result.is_err());
    let err = result.unwrap_err().message();
    assert!(err.contains("input_extensions must not be empty"));
}

#[test]
fn test_validate_config_passes_with_valid_data() {
    let global = test_global();
    let watchers = vec![WatchConfig {
        name: "test".to_string(),
        subfolders: Vec::new(),
        watch_folder: "/app/inputs/test/".to_string(),
        output_folder: "/app/outputs/test/".to_string(),
        watch_type: WatchType::Video { rules: vec![video_rule(vec![".mp4".into(), ".mxf".into()])] },
    }];
    let result = validate_config(&global, &watchers);
    assert!(result.is_ok());
}

#[test]
fn test_validate_all_watcher_types() {
    let global = test_global();
    let watchers = vec![
        WatchConfig {
            name: "video".to_string(),
            watch_folder: "/app/inputs/video/".to_string(),
            output_folder: "/app/outputs/video/".to_string(),
            subfolders: Vec::new(),
            watch_type: WatchType::Video { rules: vec![video_rule(vec![".mp4".into()])] },
        },
        WatchConfig {
            name: "image".to_string(),
            watch_folder: "/app/inputs/image/".to_string(),
            output_folder: "/app/outputs/image/".to_string(),
            subfolders: Vec::new(),
            watch_type: WatchType::Image {
                rules: vec![ImageRule {
                    preset: "jpeg_80".to_string(),
                    subfolder: None,
                    input_extensions: vec![".tiff".into()],
                    output_ext: None,
                    quality: None,
                    transparent: None,
                    output_name: None,
                }],
            },
        },
        WatchConfig {
            name: "audio".to_string(),
            watch_folder: "/app/inputs/audio/".to_string(),
            output_folder: "/app/outputs/audio/".to_string(),
            subfolders: Vec::new(),
            watch_type: WatchType::Audio {
                rules: vec![AudioRule {
                    preset: "mp3_192".to_string(),
                    subfolder: None,
                    input_extensions: vec![".wav".into()],
                    output_ext: None,
                    audio_codec: None,
                    audio_bitrate: None,
                    sample_rate: None,
                    channels: None,
                    output_name: None,
                }],
            },
        },
        WatchConfig {
            name: "pdf".to_string(),
            watch_folder: "/app/inputs/pdf/".to_string(),
            output_folder: "/app/outputs/pdf/".to_string(),
            subfolders: Vec::new(),
            watch_type: WatchType::Pdf {
                rules: vec![PdfRule {
                    preset: "pdf_ebook".to_string(),
                    subfolder: None,
                    input_extensions: vec![".pdf".into()],
                    output_ext: None,
                    mode: None,
                    quality: None,
                    pdfa_version: None,
                    resolution: None,
                    password: None,
                    output_name: None,
                }],
            },
        },
        WatchConfig {
            name: "document".to_string(),
            watch_folder: "/app/inputs/doc/".to_string(),
            output_folder: "/app/outputs/doc/".to_string(),
            subfolders: Vec::new(),
            watch_type: WatchType::Document {
                rules: vec![DocumentRule {
                    preset: "docx_to_pdf".to_string(),
                    subfolder: None,
                    input_extensions: vec![".docx".into()],
                    output_ext: None,
                    toc: None,
                    toc_depth: None,
                    css: None,
                    template: None,
                    standalone: None,
                    metadata: None,
                    pdf_engine: None,
                    options: None,
                    output_name: None,
                }],
            },
        },
        WatchConfig {
            name: "custom".to_string(),
            watch_folder: "/app/inputs/custom/".to_string(),
            output_folder: "/app/outputs/custom/".to_string(),
            subfolders: Vec::new(),
            watch_type: WatchType::Custom {
                rules: vec![CustomRule {
                    preset: "handbrake".to_string(),
                    subfolder: None,
                    input_extensions: vec![".mkv".into()],
                    output_ext: None,
                    command: None,
                    output_name: None,
                    description: None,
                }],
            },
        },
    ];
    let result = validate_config(&global, &watchers);
    assert!(result.is_ok());
}

#[test]
fn validate_config_messages_are_exact() {
    let mut global = test_global();
    global.log.errors_file = "logs/errors.log".to_string();
    assert_eq!(
        validate_config(&global, &vec![]).unwrap_err().message(),
        "log.errors_file: must be an absolute path, got 'logs/errors.log'. Example: /app/inputs/default/"
    );
    let global = test_global();
    let watchers = vec![WatchConfig {
        name: "w".to_string(),
        subfolders: Vec::new(),
        watch_folder: "in/".to_string(),
        output_folder: "/out/".to_string(),
        watch_type: WatchType::Video { rules: vec![] },
    }];
    assert_eq!(
        validate_config(&global, &watchers).unwrap_err().message(),
        "watcher 'w'.watch_folder: must be an absolute path, got 'in/'. Example: /app/inputs/default/"
    );
    let watchers = vec![WatchConfig {
        name: "w".to_string(),
        subfolders: Vec::new(),
        watch_folder: "/in/".to_string(),
        output_folder: "/out/".to_string(),
        watch_type: WatchType::Video { rules: vec![video_rule(vec![".mp4".into()]), video_rule(vec![])] },
    }];
    assert_eq!(
        validate_config(&global, &watchers).unwrap_err().message(),
        "Watcher 'w', video rule 1: input_extensions must not be empty"
    );
}

#[test]
fn default_setup_is_valid_and_rooted() {
    let (global, watchers) = default_setup("/srv/cw");
    assert_eq!(global.log.errors_file, "/srv/cw/logs/errors.log");
    assert_eq!(global.history.file, "/srv/cw/logs/history.json");
    assert_eq!(watchers.len(), 1);
    assert_eq!(watchers[0].watch_folder, "/srv/cw/inputs/default/");
    assert_eq!(watchers[0].output_folder, "/srv/cw/outputs/default/");
    assert!(validate_config(&global, &watchers).is_ok());
    if let WatchType::Video { rules } = &watchers[0].watch_type {
        assert_eq!(rules.len(), 3);
        assert_eq!(rules[2].min_duration_ratio_bits, Some(0.95f64.to_bits()));
        assert_eq!(rules[0].min_duration_ratio_bits, Some(0.9f64.to_bits()));
    } else {
        panic!("default watcher is a video watcher");
    }
}

#[test]
fn startup_directories_are_log_and_history_parents_then_watcher_folders() {
    let global = test_global();
    let watchers = vec![WatchConfig {
        name: "w".to_string(),
        watch_folder: "/app/inputs/w/".to_string(),
        output_folder: "/app/outputs/w/".to_string(),
        subfolders: vec![],
        watch_type: WatchType::Video { rules: vec![video_rule(vec![".mp4".to_string()])] },
    }];
    assert_eq!(
        directories_plan(&global, &watchers),
        vec!["/app/logs", "/app/logs", "/app/inputs/w/", "/app/outputs/w/"]
    );
}

#[test]
fn ffprobe_defaults_to_the_sibling_of_ffmpeg() {
    let mut global = GlobalConfig::default();
    global.ffmpeg_path = "/opt/ff/bin/ffmpeg".to_string();
    assert_eq!(global.ffprobe(), "/opt/ff/bin/ffprobe");
    global.ffprobe_path = Some("/usr/local/bin/ffprobe".to_string());
    assert_eq!(global.ffprobe(), "/usr/local/bin/ffprobe");
    global.ffprobe_path = None;
    global.ffmpeg_path = "/".to_string();
    assert_eq!(global.ffprobe(), "/usr/bin/ffprobe");
}

fn one_rule_watcher(rule: VideoRule) -> Vec<WatchConfig> {
    vec![WatchConfig {
        name: "test".to_string(),
        subfolders: Vec::new(),
        watch_folder: "/app/inputs/test/".to_string(),
        output_folder: "/app/outputs/test/".to_string(),
        watch_type: WatchType::Video { rules: vec![rule] },
    }]
}

#[test]
fn zero_intervals_are_rejected() {
    let watchers = one_rule_watcher(video_rule(vec![".mp4".into()]));
    let mut global = test_global();
    global.file_check_interval_ms = 0;
    assert_eq!(
        validate_config(&global, &watchers).unwrap_err().message(),
        "file_check_interval must be greater than 0"
    );
    let mut global = test_global();
    global.config_refresh_interval_s = 0;
    assert_eq!(validate_config(&global, &watchers).unwrap_err().message(), "refresh_interval must be greater than 0");
    let mut global = test_global();
    global.disk_space.check_interval_s = 0;
    assert_eq!(
        validate_config(&global, &watchers).unwrap_err().message(),
        "disk_space.check_interval must be greater than 0"
    );
    let mut global = test_global();
    global.file_check_interval_ms = 1;
    global.config_refresh_interval_s = 1;
    global.disk_space.check_interval_s = 1;
    assert!(validate_config(&global, &watchers).is_ok());
}

#[test]
fn escaping_subfolders_are_rejected() {
    let global = test_global();
    for bad in ["../escape", "a/b", "/etc", "a\\b", "x..y"] {
        let mut rule = video_rule(vec![".mp4".into()]);
        rule.subfolder = Some(bad.to_string());
        let err = validate_config(&global, &one_rule_watcher(rule)).unwrap_err().message();
        assert_eq!(
            err,
            format!("Watcher 'test', video rule 0: subfolder '{}' must not contain '/', '\\' or '..'", bad)
        );
    }
    let mut rule = video_rule(vec![".mp4".into()]);
    rule.subfolder = Some("gpu.fast-1".to_string());
    assert!(validate_config(&global, &one_rule_watcher(rule)).is_ok());
}

#[test]
fn quick_watcher_for_a_folder() {
    let w = quick_watch_config("/data/in//");
    assert_eq!(w.name, "quick");
    assert_eq!(w.watch_folder, "/data/in//");
    assert_eq!(w.output_folder, "/data/in-output");
    assert!(w.subfolders.is_empty());
    assert!(matches!(&w.watch_type, WatchType::Video { rules } if rules.is_empty()));
    assert_eq!(quick_watch_config("/data/in").output_folder, "/data/in-output");
}
