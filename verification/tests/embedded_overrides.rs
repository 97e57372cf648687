use convwatcher::config::embedded::EmbeddedConfig;
use convwatcher::config::watch::{ImageRule, Subfolder, WatchConfig, WatchType};
use convwatcher::watcher::embedded::{
    is_override_file_name, merge_all, merge_embedded, types_match, EmbedError, EmbeddedScanner,
};

fn watcher(name: &str, out: &str) -> WatchConfig {
    WatchConfig {
        name: name.to_string(),
        watch_folder: format!("/in/{name}/"),
        output_folder: out.to_string(),
        subfolders: vec![Subfolder { name: "gpu".into(), description: None }],
        watch_type: WatchType::Video { rules: vec![] },
    }
}

fn image_type() -> WatchType {
    WatchType::Image {
        rules: vec![ImageRule {
            preset: "png".into(),
            subfolder: None,
            input_extensions: vec![".bmp".into()],
            output_ext: None,
            quality: None,
            transparent: None,
            output_name: None,
        }],
    }
}

#[test]
fn override_merges_into_named_watcher() {
    let main = vec![watcher("cam", "/out/cam/"), watcher("scan", "/out/scan/")];
    let emb = EmbeddedConfig {
        secret: "k".into(),
        output_folder: "/elsewhere/".into(),
        watch_type: WatchType::Video { rules: vec![] },
    };
    let merged = merge_embedded(&main, "k", "/cfg/watchs/cam.yaml", emb).unwrap();
    assert_eq!(merged.name, "cam");
    assert_eq!(merged.watch_folder, "/in/cam/");
    assert_eq!(merged.output_folder, "/elsewhere/");
    assert_eq!(merged.subfolders.len(), 1);
}

#[test]
fn override_refusals() {
    let main = vec![watcher("cam", "/out/cam/")];
    let emb = |secret: &str, t: WatchType| EmbeddedConfig { secret: secret.into(), output_folder: String::new(), watch_type: t };
    assert_eq!(
        merge_embedded(&main, "k", "/c/cam.yaml", emb("x", WatchType::Video { rules: vec![] })).unwrap_err(),
        EmbedError::SecretMismatch
    );
    assert_eq!(
        merge_embedded(&main, "k", "/c/other.yaml", emb("k", WatchType::Video { rules: vec![] })).unwrap_err(),
        EmbedError::NoManifesto { name: "other".into() }
    );
    assert_eq!(
        merge_embedded(&main, "", "/c/cam.yaml", emb("", image_type())).unwrap_err(),
        EmbedError::TypeMismatch { manifesto: "video".into(), override_: "image".into() }
    );
    assert_eq!(
        merge_embedded(&main, "", "/", emb("", WatchType::Video { rules: vec![] })).unwrap_err(),
        EmbedError::InvalidFilename
    );
    let kept = merge_embedded(&main, "", "/c/cam.yml", emb("", WatchType::Video { rules: vec![] })).unwrap();
    assert_eq!(kept.output_folder, "/out/cam/");
}

#[test]
fn merge_all_applies_overrides_in_order() {
    let main = vec![watcher("cam", "/out/cam/"), watcher("scan", "/out/scan/")];
    let mut o1 = watcher("scan", "/first/");
    o1.watch_type = image_type();
    let o2 = watcher("scan", "");
    let o3 = watcher("ghost", "/x/");
    let merged = merge_all(main, vec![o1, o2, o3]);
    assert_eq!(merged.len(), 2);
    assert_eq!(merged[0].output_folder, "/out/cam/");
    assert_eq!(merged[1].output_folder, "/first/");
    assert!(matches!(merged[1].watch_type, WatchType::Video { .. }));
    assert!(types_match(&merged[0].watch_type, &merged[1].watch_type));
    assert!(!types_match(&merged[0].watch_type, &image_type()));
}

#[test]
fn scanner_reloads_only_changed_files_and_forgets_missing_ones() {
    let main = vec![watcher("cam", "/out/cam/"), watcher("scan", "/out/scan/")];
    let mut scanner = EmbeddedScanner::new("/cfg/watchs".into(), "k".into(), main);
    assert_eq!(scanner.watchs_dir(), "/cfg/watchs");
    assert!(scanner.needs_load("/cfg/watchs/cam.yaml", 10));
    let emb = EmbeddedConfig { secret: "k".into(), output_folder: String::new(), watch_type: WatchType::Video { rules: vec![] } };
    let merged = scanner.parse_and_merge("/cfg/watchs/cam.yaml", emb).unwrap();
    assert_eq!(merged.output_folder, "/out/cam/");
    scanner.record("/cfg/watchs/cam.yaml", merged, 10);
    assert!(!scanner.needs_load("/cfg/watchs/cam.yaml", 10));
    assert!(scanner.needs_load("/cfg/watchs/cam.yaml", 11));
    assert_eq!(scanner.loaded_configs().len(), 1);

    let removed = scanner.forget_missing(&vec!["/cfg/watchs/cam.yaml".to_string()]);
    assert!(removed.is_empty());
    let removed = scanner.forget_missing(&vec![]);
    assert_eq!(removed, vec!["/cfg/watchs/cam.yaml".to_string()]);
    assert!(scanner.loaded_configs().is_empty());
    assert!(scanner.needs_load("/cfg/watchs/cam.yaml", 10));
}

#[test]
fn override_files_are_yaml() {
    assert!(is_override_file_name("cam.yaml"));
    assert!(is_override_file_name("cam.yml"));
    assert!(!is_override_file_name("cam.yaml.old"));
    assert!(!is_override_file_name("cam.json"));
}
