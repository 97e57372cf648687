use convwatcher::config::watch::CustomRule;
use convwatcher::processor::external::{build_argv, custom_argv, validate_command_template, ExternalError};

#[test]
fn test_build_argv_basic() {
    let argv = build_argv("ffmpeg -i {input} {output}", "/in/video.mp4", "/out/video_h264.mp4", "video", "mp4", "/out/")
        .unwrap();
    assert_eq!(argv, vec!["ffmpeg", "-i", "/in/video.mp4", "/out/video_h264.mp4"]);
}

#[test]
fn test_build_argv_preserves_spaces_in_paths() {
    let argv = build_argv(
        "ffmpeg -i {input} {output}",
        "/in/my video.mp4",
        "/out/my video_h264.mp4",
        "my video",
        "mp4",
        "/out/",
    )
    .unwrap();
    assert_eq!(argv[2], "/in/my video.mp4");
    assert_eq!(argv[3], "/out/my video_h264.mp4");
}

#[test]
fn test_build_argv_rejects_traversal() {
    let result = build_argv("ffmpeg -i {input} -filter {basename}", "/in/video.mp4", "", "../../etc", "", "/out/");
    assert!(result.is_err());
}

#[test]
fn test_validate_template_rejects_dotdot() {
    assert!(validate_command_template("ffmpeg -i ../secret").is_err());
    assert!(validate_command_template("ffmpeg -i {input}").is_ok());
}

fn custom(command: Option<&str>) -> CustomRule {
    CustomRule {
        preset: "p".to_string(),
        subfolder: None,
        input_extensions: vec![".mkv".to_string()],
        output_ext: Some("..mkv".to_string()),
        command: command.map(|c| c.to_string()),
        output_name: None,
        description: None,
    }
}

#[test]
fn custom_argv_fills_every_placeholder() {
    let rule = custom(Some("tool {input} {output} {basename}.{ext} {output_folder}"));
    let argv = custom_argv(&rule, "/in/a b.mov", "/out/x.mkv", "/out", "a b.mov").unwrap();
    assert_eq!(argv, vec!["tool", "/in/a b.mov", "/out/x.mkv", "a b.mkv", "/out"]);
}

#[test]
fn custom_argv_errors() {
    assert!(matches!(custom_argv(&custom(None), "/i", "/o", "/out", "f.mkv"), Err(ExternalError::NoCommand)));
    assert!(matches!(
        custom_argv(&custom(Some("run ../x")), "/i", "/o", "/out", "f.mkv"),
        Err(ExternalError::TemplateTraversal)
    ));
    assert!(matches!(custom_argv(&custom(Some("   ")), "/i", "/o", "/out", "f.mkv"), Err(ExternalError::EmptyCommand)));
    match custom_argv(&custom(Some("run {input}")), "/a/../b", "/o", "/out", "f.mkv") {
        Err(e) => assert_eq!(e.message(), "Expanded token '/a/../b' contains '..' path traversal"),
        Ok(_) => panic!("traversal must be refused"),
    }
}
