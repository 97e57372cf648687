use convwatcher::processor::namer::{validate_filename, validate_output_path, OutputNamer, PathProbe};
use convwatcher::utils::path::get_base_name;
use convwatcher::worker::dispatch::compute_output_path;
use std::path::Path;

// The output folder of these cases does not exist, so it has no canonical form
// and nothing under it exists.
fn absent_probe(_: &String) -> PathProbe {
    PathProbe { exists: false, canonical_parent: None }
}

#[test]
fn test_validate_output_path_rejects_dotdot() {
    let folder = "/tmp/outputs";
    let path = "/tmp/outputs/../../etc/evil.txt";
    assert!(validate_output_path(path, None, None).is_err());
}

#[test]
fn test_validate_output_path_accepts_normal() {
    let folder = "/tmp/outputs";
    let path = Path::new(folder).join("video_h264_0.mp4").to_string_lossy().to_string();
    assert!(validate_output_path(&path, None, None).is_ok());
}

#[test]
fn test_validate_output_path_rejects_absolute_filename() {
    assert!(validate_filename("/etc/owned.mp4").is_err());
    assert!(validate_filename("subdir/../outside.txt").is_err());
    assert!(validate_filename("normal.mp4").is_ok());
}

#[test]
fn test_generate_path_rejects_absolute_template() {
    let folder = "/tmp/outputs";
    let result = OutputNamer::generate_path(folder, "base", "/etc/owned.mp4", "h264", "mp4", None, absent_probe);
    assert!(result.is_err());
    let err = result.unwrap_err().message();
    assert!(err.contains("absolute") || err.contains("traversal"));
}

#[test]
fn generate_path_takes_first_free_number() {
    let taken = ["/out/clip_h264_0.mp4".to_string(), "/out/clip_h264_1.mp4".to_string()];
    let probe = |p: &String| PathProbe { exists: taken.contains(p), canonical_parent: None };
    let r = OutputNamer::generate_path("/out", "clip", "{base}_{codec}_{num}.{ext}", "h264", "mp4", None, probe);
    assert_eq!(r.unwrap(), "/out/clip_h264_2.mp4");
}

#[test]
fn generate_path_refuses_escape_through_symlinked_parent() {
    let probe = |_: &String| PathProbe { exists: false, canonical_parent: Some("/etc".to_string()) };
    let r = OutputNamer::generate_path("/out", "clip", "{base}.{ext}", "c", "mp4", Some("/out"), probe);
    assert_eq!(r.unwrap_err().message(), "Output path escapes output folder: /etc not inside /out");
}

#[test]
fn generate_with_counter_falls_back_to_time() {
    let all_taken = |_: &String| true;
    let r = OutputNamer::generate_with_counter("/out", "clip", "video", "mp4", 1700000000, all_taken);
    assert_eq!(r, "/out/clip_video_1700000000.mp4");
    let none_taken = |_: &String| false;
    let r = OutputNamer::generate_with_counter("/out/", "clip", "video", "mp4", 5, none_taken);
    assert_eq!(r, "/out/clip_video_0.mp4");
}

#[test]
fn compute_output_path_falls_back_to_counter_names() {
    let probe = |_: &String| PathProbe { exists: false, canonical_parent: None };
    let free = |_: &String| false;
    let p = compute_output_path("/out", "movie.mov", Some("../{base}.{ext}"), "libx264", "mp4", "video", None, probe, 9, free);
    assert_eq!(p, "/out/movie_video_0.mp4");
    let p = compute_output_path("/out", "movie.mov", None, "libx264", "mp4", "video", None, probe, 9, free);
    assert_eq!(p, "/out/movie_libx264_0.mp4");
}

#[test]
fn base_name_strips_one_extension() {
    assert_eq!(get_base_name("video.mp4"), "video");
    assert_eq!(get_base_name("archive.tar.gz"), "archive.tar");
    assert_eq!(get_base_name(".hidden"), ".hidden");
    assert_eq!(get_base_name(""), "");
}
