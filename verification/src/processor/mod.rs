//! Conversion processors: how each names its output and the command line it
//! runs.
use vstd::prelude::*;
use crate::common::ffmpeg::{or_default, text_or};
use crate::text::{owned, trim_start_char, trim_start_matches_char};

pub mod audio;
pub mod disk;
pub mod document;
pub mod external;
pub mod image;
pub mod job;
pub mod namer;
pub mod pdf;
pub mod video;

verus! {

/// How a processor names its output: the extension (without leading dots),
/// the file-name template, the codec put in `{codec}`, and the label used
/// as codec when falling back to counter names.
#[derive(Debug, Clone)]
pub struct Naming {
    pub ext: String,
    pub template: String,
    pub codec: String,
    pub label: String,
}

/// The extension of a rule without its leading dots, `default` where it
/// has none.
pub open spec fn bare_ext(o: Option<String>, default: Seq<char>) -> Seq<char> {
    trim_start_char(or_default(o, default), '.')
}

/// `n` is the naming built from these parts.
pub open spec fn naming_is(n: Naming, ext: Seq<char>, template: Seq<char>, codec: Seq<char>, label: Seq<char>) -> bool {
    &&& n.ext@ == ext
    &&& n.template@ == template
    &&& n.codec@ == codec
    &&& n.label@ == label
}

/// The naming from a rule's extension and template, with the processor's
/// defaults.
pub fn make_naming(
    output_ext: &Option<String>,
    ext_default: &str,
    output_name: &Option<String>,
    template_default: &str,
    codec: &str,
    label: &str,
) -> (r: Naming)
    ensures
        naming_is(
            r,
            bare_ext(*output_ext, ext_default@),
            or_default(*output_name, template_default@),
            codec@,
            label@,
        ),
{
    Naming {
        ext: trim_start_matches_char(text_or(output_ext, ext_default), '.'),
        template: owned(text_or(output_name, template_default)),
        codec: owned(codec),
        label: owned(label),
    }
}

} // verus!
