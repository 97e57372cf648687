//! Local image conversion: output naming and the encoding decisions. The
//! decoding and encoding themselves are done by the `image` crate outside
//! the library.
use vstd::prelude::*;
use crate::common::ffmpeg::{or_default, text_or};
use crate::config::watch::ImageRule;
use crate::processor::{bare_ext, make_naming, naming_is, Naming};
use crate::text::{lowercase, str_eq, to_lowercase, trim_start_char, trim_start_matches_char};

verus! {

/// Inputs larger than this many bytes (100 MiB) are refused.
pub const MAX_IMAGE_INPUT_BYTES: u64 = 104857600;

/// Whether an input of `size` bytes is refused as too large.
pub fn image_too_large(size: u64) -> (r: bool)
    ensures
        r == (size > MAX_IMAGE_INPUT_BYTES),
{
    size > MAX_IMAGE_INPUT_BYTES
}

/// Image output: `.png` and `{base}_conv.{ext}` by default, with `image`
/// as codec and counter label.
pub fn image_naming(rule: &ImageRule) -> (r: Naming)
    ensures
        naming_is(
            r,
            bare_ext(rule.output_ext, ".png"@),
            or_default(rule.output_name, "{base}_conv.{ext}"@),
            "image"@,
            "image"@,
        ),
{
    make_naming(&rule.output_ext, ".png", &rule.output_name, "{base}_conv.{ext}", "image", "image")
}

/// The formats an image can be written in.
#[derive(Debug, Clone, Copy, PartialEq, Eq, Structural)]
pub enum ImageKind {
    Jpeg,
    Png,
    Gif,
    Bmp,
    Tiff,
    WebP,
    Qoi,
}

/// The format of an extension (leading dots ignored, case ignored); PNG
/// for anything unknown.
pub open spec fn format_of(ext: Seq<char>) -> ImageKind {
    let e = lowercase(trim_start_char(ext, '.'));
    if e == "jpg"@ || e == "jpeg"@ {
        ImageKind::Jpeg
    } else if e == "png"@ {
        ImageKind::Png
    } else if e == "gif"@ {
        ImageKind::Gif
    } else if e == "bmp"@ {
        ImageKind::Bmp
    } else if e == "tiff"@ || e == "tif"@ {
        ImageKind::Tiff
    } else if e == "webp"@ {
        ImageKind::WebP
    } else if e == "qoi"@ {
        ImageKind::Qoi
    } else {
        ImageKind::Png
    }
}

/// The format of an extension.
pub fn detect_format(ext: &str) -> (r: ImageKind)
    ensures
        r == format_of(ext@),
{
    let bare = trim_start_matches_char(ext, '.');
    let e = to_lowercase(bare.as_str());
    let s = e.as_str();
    if str_eq(s, "jpg") || str_eq(s, "jpeg") {
        ImageKind::Jpeg
    } else if str_eq(s, "png") {
        ImageKind::Png
    } else if str_eq(s, "gif") {
        ImageKind::Gif
    } else if str_eq(s, "bmp") {
        ImageKind::Bmp
    } else if str_eq(s, "tiff") || str_eq(s, "tif") {
        ImageKind::Tiff
    } else if str_eq(s, "webp") {
        ImageKind::WebP
    } else if str_eq(s, "qoi") {
        ImageKind::Qoi
    } else {
        ImageKind::Png
    }
}

/// How an image rule writes its output: the format of its extension
/// (`.png` by default), whether the alpha channel is kept, and the JPEG
/// quality (90 by default, clamped to 1..=100).
#[derive(Debug, Clone, Copy)]
pub struct ImagePlan {
    pub format: ImageKind,
    pub keep_alpha: bool,
    pub jpeg_quality: u8,
}

/// The JPEG quality of a rule.
pub open spec fn jpeg_quality_of(q: Option<u32>) -> int {
    let v = match q {
        Some(x) => x as int,
        None => 90,
    };
    if v > 100 {
        100
    } else if v < 1 {
        1
    } else {
        v
    }
}

/// How an image rule writes its output.
pub fn image_plan(rule: &ImageRule) -> (r: ImagePlan)
    ensures
        r.format == format_of(or_default(rule.output_ext, ".png"@)),
        r.keep_alpha == (rule.transparent == Some(true)),
        r.jpeg_quality == jpeg_quality_of(rule.quality),
{
    let q = match rule.quality {
        Some(x) => x,
        None => 90,
    };
    let clamped: u32 = if q > 100 {
        100
    } else if q < 1 {
        1
    } else {
        q
    };
    ImagePlan {
        format: detect_format(text_or(&rule.output_ext, ".png")),
        keep_alpha: rule.transparent == Some(true),
        jpeg_quality: clamped as u8,
    }
}

} // verus!
