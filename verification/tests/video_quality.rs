use convwatcher::common::ffmpeg::build_hwaccel_args;
use convwatcher::processor::video::parse_quality_value;

#[test]
fn test_parse_crf() {
    assert_eq!(parse_quality_value("crf 23"), vec!["-crf", "23"]);
    assert_eq!(parse_quality_value("crf 18"), vec!["-crf", "18"]);
}

#[test]
fn test_parse_cq_nvenc() {
    assert_eq!(parse_quality_value("cq 23"), vec!["-cq", "23"]);
    assert_eq!(parse_quality_value("cq 18"), vec!["-cq", "18"]);
}

#[test]
fn test_parse_qp_vaapi() {
    assert_eq!(parse_quality_value("qp 25"), vec!["-qp", "25"]);
    assert_eq!(parse_quality_value("qp 28"), vec!["-qp", "28"]);
}

#[test]
fn test_parse_qp_i_amf() {
    assert_eq!(parse_quality_value("qp_i 25"), vec!["-qp_i", "25"]);
    assert_eq!(parse_quality_value("qp_i 28"), vec!["-qp_i", "28"]);
}

#[test]
fn test_parse_qscale() {
    assert_eq!(parse_quality_value("qscale 4"), vec!["-qscale:v", "4"]);
}

#[test]
fn test_parse_constant_bit_rate() {
    assert_eq!(parse_quality_value("constant_bit_rate 3000"), vec!["-b:v", "3000"]);
    assert_eq!(parse_quality_value("constant_bit_rate 5000"), vec!["-b:v", "5000"]);
}

#[test]
fn test_parse_vbr() {
    assert_eq!(parse_quality_value("vbr 4"), vec!["-q:v", "4"]);
}

#[test]
fn test_parse_numeric_only() {
    assert_eq!(parse_quality_value("23"), vec!["-crf", "23"]);
    assert_eq!(parse_quality_value("28"), vec!["-crf", "28"]);
}

#[test]
fn test_parse_bitrate() {
    assert_eq!(parse_quality_value("3000k"), vec!["-b:v", "3000k"]);
    assert_eq!(parse_quality_value("5M"), vec!["-b:v", "5M"]);
}

#[test]
fn test_parse_empty() {
    assert_eq!(parse_quality_value(""), vec!["-crf", "23"]);
}

#[test]
fn test_parse_unknown_fallback() {
    assert_eq!(parse_quality_value("foo 42"), vec!["-crf", "23"]);
}

#[test]
fn test_hwaccel_vaapi() {
    let (pre, post) = build_hwaccel_args("h264_vaapi");
    assert!(pre.contains(&"-vaapi_device".to_string()));
    assert!(post.contains(&"-vf".to_string()));
}

#[test]
fn test_hwaccel_qsv() {
    let (pre, post) = build_hwaccel_args("hevc_qsv");
    assert!(pre.contains(&"-init_hw_device".to_string()));
    assert!(post.is_empty());
}

#[test]
fn test_hwaccel_rkmpp() {
    let (pre, post) = build_hwaccel_args("hevc_rkmpp");
    assert!(pre.contains(&"-init_hw_device".to_string()));
    assert!(pre.contains(&"-hwaccel".to_string()));
    assert!(post.contains(&"-vf".to_string()));
}

#[test]
fn test_hwaccel_none() {
    let (pre, post) = build_hwaccel_args("libx264");
    assert!(pre.is_empty());
    assert!(post.is_empty());
}

#[test]
fn parse_quality_uint_overflow_falls_back() {
    assert_eq!(parse_quality_value("99999999999"), vec!["-crf", "23"]);
    assert_eq!(parse_quality_value("+7"), vec!["-crf", "+7"]);
}
