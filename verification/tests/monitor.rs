use convwatcher::config::embedded::EmbeddedConfig;
use convwatcher::config::global::InputFileAction;
use convwatcher::config::watch::{ImageRule, Subfolder, VideoRule, WatchConfig, WatchType};
use convwatcher::processor::job::MatchedRule;
use convwatcher::watcher::monitor::{
    check_promotion, create_folders_plan, create_job, invalid_marker_path, monitor_name, promotion_targets, FileTracker,
    PromotionRefusal, ScanOutcome,
};
use std::path::PathBuf;

fn video_rule(preset: &str, subfolder: Option<&str>, exts: &[&str]) -> VideoRule {
    VideoRule {
        preset: preset.to_string(),
        subfolder: subfolder.map(|s| s.to_string()),
        input_extensions: exts.iter().map(|e| e.to_string()).collect(),
        output_ext: None,
        codec: None,
        quality: None,
        audio_codec: None,
        audio_bitrate: None,
        output_name: None,
        check_duration: None,
        min_duration_ratio_bits: None,
    }
}

fn test_video_config() -> WatchConfig {
    WatchConfig {
        name: "test".to_string(),
        subfolders: Vec::new(),
        watch_folder: "/app/inputs/test/".to_string(),
        output_folder: "/app/outputs/test/".to_string(),
        watch_type: WatchType::Video {
            rules: vec![video_rule("libx264", None, &[".mp4", ".mxf"]), video_rule("h264_nvenc", Some("gpu"), &[".mxf"])],
        },
    }
}

#[test]
fn test_create_job_matches_by_extension() {
    let config = test_video_config();
    let job = create_job("/app/inputs/test/clip.mp4", "clip.mp4", &config, "watcher_test", InputFileAction::Mark);
    assert!(job.is_some());
    let job = job.unwrap();
    assert_eq!(job.file_name, "clip.mp4");
}

#[test]
fn test_create_job_matches_by_subfolder_format() {
    let config = test_video_config();
    let job = create_job("/app/inputs/test/->gpu/broadcast.mxf", "broadcast.mxf", &config, "watcher_test", InputFileAction::Mark);
    assert!(job.is_some());
}

#[test]
fn test_create_job_no_match_unknown_extension() {
    let config = test_video_config();
    let job = create_job("/app/inputs/test/clip.xyz", "clip.xyz", &config, "watcher_test", InputFileAction::Mark);
    assert!(job.is_none());
}

#[test]
fn test_create_job_no_match_wrong_subfolder() {
    let config = test_video_config();
    let job = create_job("/app/inputs/test/->unknown/clip.xyz", "clip.xyz", &config, "watcher_test", InputFileAction::Mark);
    assert!(job.is_none());
}

#[test]
fn test_create_folders_creates_subfolder_formats() {
    let base = "/tmp/cw_test_plan".to_string();
    let config = WatchConfig {
        name: "test".to_string(),
        subfolders: Vec::new(),
        watch_folder: base.clone() + "/inputs/",
        output_folder: base.clone() + "/outputs/",
        watch_type: WatchType::Video {
            rules: vec![video_rule("libx264", Some("h264"), &[".mp4"]), video_rule("libx265", Some("h265"), &[".mp4"])],
        },
    };

    let plan = create_folders_plan(&config);
    assert!(plan.contains(&config.watch_folder));
    assert!(plan.contains(&config.output_folder));
    let joined = |name: &str| PathBuf::from(&config.watch_folder).join(name).to_string_lossy().to_string();
    assert!(plan.contains(&joined("->h264")));
    assert!(plan.contains(&joined("->h265")));
    assert_eq!(plan.len(), 4);
}

#[test]
fn folder_plan_skips_declared_rule_subfolders() {
    let mut config = test_video_config();
    config.subfolders = vec![Subfolder { name: "gpu".to_string(), description: None }];
    let plan = create_folders_plan(&config);
    assert_eq!(plan, vec!["/app/inputs/test/", "/app/outputs/test/", "/app/inputs/test/->gpu"]);
}

#[test]
fn routing_folder_wins_over_extension_and_is_lowercased() {
    let config = test_video_config();
    let job = create_job("/app/inputs/test/->GPU/CLIP.MXF", "CLIP.MXF", &config, "w", InputFileAction::Delete).unwrap();
    match job.matched_rule {
        MatchedRule::Video(r) => assert_eq!(r.preset, "h264_nvenc"),
        _ => panic!("video rule expected"),
    }
    assert_eq!(job.input_file_action, InputFileAction::Delete);
    let job = create_job("/app/inputs/test/CLIP.MXF", "CLIP.MXF", &config, "w", InputFileAction::Mark).unwrap();
    match job.matched_rule {
        MatchedRule::Video(r) => assert_eq!(r.preset, "libx264"),
        _ => panic!("video rule expected"),
    }
}

#[test]
fn file_becomes_stable_only_after_unchanged_size() {
    let config = test_video_config();
    let mut t = FileTracker::new();
    let path = "/app/inputs/test/clip.mp4";
    let obs = |t: &mut FileTracker, size: u64, now: u64| {
        t.observe(path, "clip.mp4", size, now, 1000, &config, "w", false, false, InputFileAction::Mark)
    };
    assert!(matches!(obs(&mut t, 10, 0), ScanOutcome::Nothing));
    assert!(matches!(obs(&mut t, 20, 500), ScanOutcome::Nothing));
    assert!(matches!(obs(&mut t, 20, 900), ScanOutcome::Nothing));
    assert!(matches!(obs(&mut t, 20, 1000), ScanOutcome::Nothing));
    assert!(matches!(obs(&mut t, 20, 1499), ScanOutcome::Nothing));
    match obs(&mut t, 20, 1500) {
        ScanOutcome::Dispatch(job) => assert_eq!(job.file_path, path),
        _ => panic!("stable file must be dispatched"),
    }
    assert!(matches!(obs(&mut t, 20, 5000), ScanOutcome::Nothing));
}

#[test]
fn test_stability_timer_resets_on_size_change() {
    let config = test_video_config();
    let mut t = FileTracker::new();
    let p = "/app/inputs/test/clip.mp4";
    t.observe(p, "clip.mp4", 0, 0, 100, &config, "w", false, false, InputFileAction::Mark);
    let r = t.observe(p, "clip.mp4", 0, 90, 100, &config, "w", false, false, InputFileAction::Mark);
    assert!(matches!(r, ScanOutcome::Nothing));
    let r = t.observe(p, "clip.mp4", 4096, 95, 100, &config, "w", false, false, InputFileAction::Mark);
    assert!(matches!(r, ScanOutcome::Nothing));
    let r = t.observe(p, "clip.mp4", 4096, 150, 100, &config, "w", false, false, InputFileAction::Mark);
    assert!(matches!(r, ScanOutcome::Nothing));
    let r = t.observe(p, "clip.mp4", 4096, 195, 100, &config, "w", false, false, InputFileAction::Mark);
    assert!(matches!(r, ScanOutcome::Dispatch(_)));
}

#[test]
fn test_create_job_no_match_known_subfolder_wrong_extension() {
    let config = test_video_config();
    let job = create_job("/app/inputs/test/->gpu/notes.txt", "notes.txt", &config, "watcher_test", InputFileAction::Mark);
    assert!(job.is_none());
}

#[test]
fn subfolder_file_with_root_extension_falls_back_to_root_rule() {
    let config = test_video_config();
    let job = create_job("/app/inputs/test/->gpu/clip.mp4", "clip.mp4", &config, "w", InputFileAction::Mark).unwrap();
    match job.matched_rule {
        MatchedRule::Video(r) => assert_eq!(r.preset, "libx264"),
        _ => panic!("video rule expected"),
    }
}

#[test]
fn busy_files_stay_tracked_and_markers_are_ignored() {
    let config = test_video_config();
    let mut t = FileTracker::new();
    let p = "/app/inputs/test/a.mp4";
    t.observe(p, "a.mp4", 1, 0, 10, &config, "w", false, true, InputFileAction::Mark);
    let r = t.observe(p, "a.mp4", 1, 20, 10, &config, "w", false, true, InputFileAction::Mark);
    assert!(matches!(r, ScanOutcome::Nothing));
    let r = t.observe(p, "a.mp4", 1, 30, 10, &config, "w", false, false, InputFileAction::Mark);
    assert!(matches!(r, ScanOutcome::Dispatch(_)));
    let m = "/app/inputs/test/a.mp4.done";
    t.observe(m, "a.mp4.done", 1, 0, 10, &config, "w", false, false, InputFileAction::Mark);
    let r = t.observe(m, "a.mp4.done", 1, 100, 10, &config, "w", false, false, InputFileAction::Mark);
    assert!(matches!(r, ScanOutcome::Nothing));
}

#[test]
fn own_config_file_is_promoted_when_stable() {
    let config = test_video_config();
    let mut t = FileTracker::new();
    let p = "/app/inputs/test/test.yaml";
    t.observe(p, "test.yaml", 5, 0, 10, &config, "w", false, false, InputFileAction::Mark);
    let r = t.observe(p, "test.yaml", 5, 10, 10, &config, "w", false, false, InputFileAction::Mark);
    assert!(matches!(r, ScanOutcome::PromoteConfig));
    t.observe(p, "test.yaml", 5, 20, 10, &config, "w", true, false, InputFileAction::Mark);
    let r = t.observe(p, "test.yaml", 5, 40, 10, &config, "w", true, false, InputFileAction::Mark);
    assert!(matches!(r, ScanOutcome::Nothing));
}

#[test]
fn stale_entries_are_dropped() {
    let config = test_video_config();
    let mut t = FileTracker::new();
    t.observe("/x/a.mp4", "a.mp4", 1, 0, 10, &config, "w", false, false, InputFileAction::Mark);
    t.observe("/x/b.mp4", "b.mp4", 1, 95, 10, &config, "w", false, false, InputFileAction::Mark);
    t.observe("/x/c.mp4", "c.mp4", 1, 95, 10, &config, "w", false, false, InputFileAction::Mark);
    t.cleanup_stale_entries(100, 10, |p: &String| p != "/x/c.mp4");
    let r = t.observe("/x/b.mp4", "b.mp4", 1, 105, 10, &config, "w", false, false, InputFileAction::Mark);
    assert!(matches!(r, ScanOutcome::Dispatch(_)));
    let r = t.observe("/x/a.mp4", "a.mp4", 1, 200, 10, &config, "w", false, false, InputFileAction::Mark);
    assert!(matches!(r, ScanOutcome::Nothing));
    let r = t.observe("/x/c.mp4", "c.mp4", 1, 200, 10, &config, "w", false, false, InputFileAction::Mark);
    assert!(matches!(r, ScanOutcome::Nothing));
}

#[test]
fn promotion_checks_secret_and_type() {
    let config = test_video_config();
    let same = EmbeddedConfig {
        secret: "s".to_string(),
        output_folder: String::new(),
        watch_type: WatchType::Video { rules: vec![] },
    };
    assert_eq!(check_promotion("s", &config, &same), Ok(()));
    assert_eq!(check_promotion("", &config, &same), Ok(()));
    assert_eq!(check_promotion("t", &config, &same), Err(PromotionRefusal::SecretMismatch));
    let other = EmbeddedConfig {
        secret: "s".to_string(),
        output_folder: String::new(),
        watch_type: WatchType::Image {
            rules: vec![ImageRule {
                preset: "p".to_string(),
                subfolder: None,
                input_extensions: vec![],
                output_ext: None,
                quality: None,
                transparent: None,
                output_name: None,
            }],
        },
    };
    assert_eq!(
        check_promotion("s", &config, &other),
        Err(PromotionRefusal::TypeMismatch { expected: "video".to_string(), got: "image".to_string() })
    );
    assert_eq!(invalid_marker_path("/app/in", "test"), "/app/in/test.invalid");
}

#[test]
fn converted_file_waits_again_before_a_second_dispatch() {
    let config = test_video_config();
    let mut t = FileTracker::new();
    let p = "/app/inputs/test/clip.mp4";
    t.observe(p, "clip.mp4", 7, 0, 10, &config, "w", false, false, InputFileAction::Mark);
    let first = t.observe(p, "clip.mp4", 7, 50, 10, &config, "w", false, false, InputFileAction::Mark);
    assert!(matches!(first, ScanOutcome::Dispatch(_)));
    let again = t.observe(p, "clip.mp4", 7, 500, 10, &config, "w", false, false, InputFileAction::Mark);
    assert!(matches!(again, ScanOutcome::Nothing));
    let grown = t.observe(p, "clip.mp4", 8, 600, 10, &config, "w", false, false, InputFileAction::Mark);
    assert!(matches!(grown, ScanOutcome::Nothing));
}

#[test]
fn monitor_names_and_promotion_paths() {
    let config = test_video_config();
    assert_eq!(monitor_name(&config), "watcher_test");
    let (dest, backup, marker) = promotion_targets("/app/inputs/test/test.yaml", "test");
    assert_eq!(dest, "config/watchs/test.yaml");
    assert_eq!(backup, "/app/inputs/test/test.yaml.old");
    assert_eq!(marker, "/app/inputs/test/test.yaml.invalid");
}
