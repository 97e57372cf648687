use convwatcher::config::watch::{PdfMode, PdfRule, Subfolder, VideoRule, WatchConfig, WatchType};
use convwatcher::health::server::{last_lines, route, uptime_string, ConversionRecord, HealthServer, Route};
use convwatcher::health::watchers::watcher_info_from_config;

fn record(n: usize) -> ConversionRecord {
    ConversionRecord {
        time: format!("t{n}"),
        watcher: "w".to_string(),
        file: format!("f{n}"),
        status: "done".to_string(),
        output: String::new(),
    }
}

#[test]
fn queue_holds_each_file_once_and_dequeue_removes_it() {
    let mut hs = HealthServer::new(8080, "0.0.0.0".to_string(), 10);
    assert!(hs.queue().is_none());
    hs.enqueue("a.mp4");
    hs.enqueue("b.mp4");
    hs.enqueue("a.mp4");
    assert_eq!(hs.queue().unwrap(), &vec!["a.mp4".to_string(), "b.mp4".to_string()]);
    hs.dequeue("a.mp4");
    assert_eq!(hs.queue().unwrap(), &vec!["b.mp4".to_string()]);
    hs.dequeue("b.mp4");
    assert!(hs.queue().unwrap().is_empty());
}

#[test]
fn history_keeps_newest_records() {
    let mut hs = HealthServer::new(8080, "0.0.0.0".to_string(), 3);
    for n in 0..5 {
        hs.add_history(record(n));
    }
    let files: Vec<&str> = hs.history().iter().map(|r| r.file.as_str()).collect();
    assert_eq!(files, vec!["f2", "f3", "f4"]);
    let mut none = HealthServer::new(1, "x".to_string(), 0);
    none.add_history(record(0));
    assert!(none.history().is_empty());
}

#[test]
fn conversion_bookkeeping() {
    let mut hs = HealthServer::new(8080, "0.0.0.0".to_string(), 10);
    hs.enqueue("clip.mp4");
    hs.begin_conversion("cam", "clip.mp4");
    assert!(hs.queue().unwrap().is_empty());
    assert_eq!(hs.processing().get("cam"), Some(&"clip.mp4".to_string()));
    hs.finish_conversion("cam", "clip.mp4", "12:00:00".to_string(), Some("/out/clip.mkv".to_string()));
    hs.begin_conversion("cam", "bad.mp4");
    hs.finish_conversion("cam", "bad.mp4", "12:00:01".to_string(), None);
    let s = hs.summary(3725);
    assert_eq!(s.processed, 1);
    assert_eq!(s.errors, 1);
    assert_eq!(s.processing, 0);
    assert_eq!(s.uptime, "1h 2m 5s");
    let h = hs.history();
    assert_eq!(h[0].status, "done");
    assert_eq!(h[0].output, "/out/clip.mkv");
    assert_eq!(h[1].status, "error");
    assert_eq!(h[1].output, "");
}

#[test]
fn watchers_are_replaced_by_watch_folder() {
    let mut hs = HealthServer::new(8080, "0.0.0.0".to_string(), 10);
    let cfg = |name: &str, folder: &str| WatchConfig {
        name: name.to_string(),
        watch_folder: folder.to_string(),
        output_folder: "/out/".to_string(),
        subfolders: vec![],
        watch_type: WatchType::Video { rules: vec![] },
    };
    hs.add_watcher_with_config(&cfg("a", "/in/a/"));
    hs.add_watcher_with_config(&cfg("b", "/in/b/"));
    hs.add_watcher_with_config(&cfg("a2", "/in/a/"));
    let names: Vec<&str> = hs.watchers().iter().map(|w| w.name.as_str()).collect();
    assert_eq!(names, vec!["b", "a2"]);
}

#[test]
fn dashboard_rule_lines() {
    let cfg = WatchConfig {
        name: "v".to_string(),
        watch_folder: "/in/".to_string(),
        output_folder: "/out/".to_string(),
        subfolders: vec![Subfolder { name: "gpu".to_string(), description: Some("fast".to_string()) }],
        watch_type: WatchType::Video {
            rules: vec![
                VideoRule {
                    preset: "p".to_string(),
                    subfolder: None,
                    input_extensions: vec![".mp4".to_string(), ".mov".to_string()],
                    output_ext: Some(".mkv".to_string()),
                    codec: None,
                    quality: None,
                    audio_codec: None,
                    audio_bitrate: None,
                    output_name: None,
                    check_duration: None,
                    min_duration_ratio_bits: None,
                },
                VideoRule {
                    preset: "p".to_string(),
                    subfolder: Some("gpu".to_string()),
                    input_extensions: vec![],
                    output_ext: None,
                    codec: Some("h264_nvenc".to_string()),
                    quality: None,
                    audio_codec: None,
                    audio_bitrate: None,
                    output_name: None,
                    check_duration: None,
                    min_duration_ratio_bits: None,
                },
            ],
        },
    };
    let info = watcher_info_from_config(&cfg);
    assert_eq!(info.watch_type, "video");
    assert_eq!(
        info.video_rules,
        vec!["[\".mp4\", \".mov\"] -> .mkv ((preset))", "gpu (h264_nvenc, (preset))", "->gpu: fast"]
    );
    assert!(info.audio_rules.is_empty());
    let pdf = WatchConfig {
        name: "p".to_string(),
        watch_folder: "/in/".to_string(),
        output_folder: "/out/".to_string(),
        subfolders: vec![],
        watch_type: WatchType::Pdf {
            rules: vec![PdfRule {
                preset: "x".to_string(),
                subfolder: Some("small".to_string()),
                input_extensions: vec![],
                output_ext: None,
                mode: Some(PdfMode::PdfA),
                quality: None,
                pdfa_version: None,
                resolution: None,
                password: None,
                output_name: None,
            }],
        },
    };
    assert_eq!(watcher_info_from_config(&pdf).pdf_rules, vec!["small (Some(PdfA))"]);
}

#[test]
fn routes_and_logs() {
    assert_eq!(route(true, "/"), Route::Dashboard);
    assert_eq!(route(true, "/dashboard"), Route::Dashboard);
    assert_eq!(route(true, "/health"), Route::Health);
    assert_eq!(route(true, "/logs"), Route::AppLog);
    assert_eq!(route(true, "/logs/app"), Route::AppLog);
    assert_eq!(route(true, "/logs/errors"), Route::ErrorLog);
    assert_eq!(route(false, "/health"), Route::NotFound);
    assert_eq!(route(true, "/health?x=1"), Route::NotFound);
    let hs = HealthServer::new(1, "x".to_string(), 1).with_app_log("app.log".to_string());
    assert_eq!(hs.log_path(Route::AppLog), Some(&"app.log".to_string()));
    assert_eq!(hs.log_path(Route::ErrorLog), None);
    assert_eq!(uptime_string(59), "0h 0m 59s");
}

#[test]
fn log_tail_matches_str_lines() {
    assert_eq!(last_lines("a\r\nb\nc\n", 2), "b\nc");
    assert_eq!(last_lines("a\nb", 5), "a\nb");
    assert_eq!(last_lines("", 3), "");
    assert_eq!(last_lines("x\r", 1), "x\r");
    let text = "1\n2\n3\n4\n";
    let expected: Vec<&str> = text.lines().collect();
    assert_eq!(last_lines(text, 3), expected[1..].join("\n"));
}
