//! A file waiting for conversion and the rule it matched.
use vstd::prelude::*;
use crate::config::global::InputFileAction;
use crate::config::watch::{AudioRule, CustomRule, DocumentRule, ImageRule, PdfRule, VideoRule};

verus! {

/// The rule a file matched, with the kind of conversion it calls for.
#[derive(Debug, Clone)]
pub enum MatchedRule {
    Video(VideoRule),
    Image(ImageRule),
    Audio(AudioRule),
    Pdf(PdfRule),
    Document(DocumentRule),
    Custom(CustomRule),
}

/// One stable input file and everything needed to convert it.
#[derive(Debug, Clone)]
pub struct ConversionJob {
    pub watcher_name: String,
    pub file_name: String,
    pub file_path: String,
    pub matched_rule: MatchedRule,
    pub output_folder: String,
    pub watch_folder: String,
    pub input_file_action: InputFileAction,
}

} // verus!
