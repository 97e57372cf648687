//! Watcher definitions: folders, declared subfolders and the single-type
//! rule list of each watcher.
use vstd::prelude::*;
use crate::text::{copy_opt, copy_opt_strings, copy_strings, same_opt_strings};

verus! {

/// All watchers of a configuration file.
#[derive(Debug, Clone)]
pub struct WatchConfigCollection {
    pub watchers: Vec<WatchConfig>,
}

/// A subfolder the watcher creates (`->{name}/`) and routes by name.
#[derive(Debug, Clone)]
pub struct Subfolder {
    pub name: String,
    pub description: Option<String>,
}

/// One watched folder and its conversion rules.
#[derive(Debug, Clone)]
pub struct WatchConfig {
    pub name: String,
    pub watch_folder: String,
    pub output_folder: String,
    pub subfolders: Vec<Subfolder>,
    pub watch_type: WatchType,
}

/// The single conversion type of a watcher, with its rules.
#[derive(Debug, Clone)]
pub enum WatchType {
    Video { rules: Vec<VideoRule> },
    Image { rules: Vec<ImageRule> },
    Audio { rules: Vec<AudioRule> },
    Pdf { rules: Vec<PdfRule> },
    Document { rules: Vec<DocumentRule> },
    Custom { rules: Vec<CustomRule> },
}

/// The configuration name of a watcher type.
pub open spec fn kind_label_of(t: WatchType) -> Seq<char> {
    match t {
        WatchType::Video { .. } => "video"@,
        WatchType::Image { .. } => "image"@,
        WatchType::Audio { .. } => "audio"@,
        WatchType::Pdf { .. } => "pdf"@,
        WatchType::Document { .. } => "document"@,
        WatchType::Custom { .. } => "custom"@,
    }
}

/// The two watcher types are the same kind.
pub open spec fn same_kind(a: WatchType, b: WatchType) -> bool {
    ||| (a is Video && b is Video)
    ||| (a is Image && b is Image)
    ||| (a is Audio && b is Audio)
    ||| (a is Pdf && b is Pdf)
    ||| (a is Document && b is Document)
    ||| (a is Custom && b is Custom)
}

/// Two watcher types with the same configuration name are of the same kind.
pub proof fn lemma_label_determines_kind(a: WatchType, b: WatchType)
    requires
        kind_label_of(a) == kind_label_of(b),
    ensures
        same_kind(a, b),
{
    reveal_strlit("video");
    reveal_strlit("image");
    reveal_strlit("audio");
    reveal_strlit("pdf");
    reveal_strlit("document");
    reveal_strlit("custom");
    assert("video"@.len() == 5 && "video"@[0] == 'v');
    assert("image"@.len() == 5 && "image"@[0] == 'i');
    assert("audio"@.len() == 5 && "audio"@[0] == 'a');
    assert("pdf"@.len() == 3);
    assert("document"@.len() == 8);
    assert("custom"@.len() == 6);
    let la = kind_label_of(a);
    let lb = kind_label_of(b);
    assert(la.len() == lb.len());
    assert(la[0] == lb[0]);
}

impl WatchType {
    /// The configuration name of the type (`video`, `image`, ...).
    pub fn type_label(&self) -> (r: &'static str)
        ensures
            r@ == kind_label_of(*self),
    {
        match self {
            WatchType::Video { .. } => "video",
            WatchType::Image { .. } => "image",
            WatchType::Audio { .. } => "audio",
            WatchType::Pdf { .. } => "pdf",
            WatchType::Document { .. } => "document",
            WatchType::Custom { .. } => "custom",
        }
    }
}

/// A video rule. The minimum duration ratio is a floating-point number kept
/// as its IEEE-754 bit pattern; nothing here computes with it.
#[derive(Debug, Clone)]
pub struct VideoRule {
    pub preset: String,
    pub subfolder: Option<String>,
    pub input_extensions: Vec<String>,
    pub output_ext: Option<String>,
    pub codec: Option<String>,
    pub quality: Option<String>,
    pub audio_codec: Option<String>,
    pub audio_bitrate: Option<String>,
    pub output_name: Option<String>,
    pub check_duration: Option<bool>,
    pub min_duration_ratio_bits: Option<u64>,
}

#[derive(Debug, Clone)]
pub struct ImageRule {
    pub preset: String,
    pub subfolder: Option<String>,
    pub input_extensions: Vec<String>,
    pub output_ext: Option<String>,
    pub quality: Option<u32>,
    pub transparent: Option<bool>,
    pub output_name: Option<String>,
}

#[derive(Debug, Clone)]
pub struct AudioRule {
    pub preset: String,
    pub subfolder: Option<String>,
    pub input_extensions: Vec<String>,
    pub output_ext: Option<String>,
    pub audio_codec: Option<String>,
    pub audio_bitrate: Option<String>,
    pub sample_rate: Option<u32>,
    pub channels: Option<u8>,
    pub output_name: Option<String>,
}

#[derive(Debug, Clone)]
pub struct PdfRule {
    pub preset: String,
    pub subfolder: Option<String>,
    pub input_extensions: Vec<String>,
    pub output_ext: Option<String>,
    pub mode: Option<PdfMode>,
    pub quality: Option<PdfQuality>,
    pub pdfa_version: Option<String>,
    pub resolution: Option<u32>,
    pub password: Option<String>,
    pub output_name: Option<String>,
}

/// What a PDF rule does.
#[derive(Debug, Clone, Copy, PartialEq, Eq, Structural)]
pub enum PdfMode {
    Compress,
    PdfA,
    ExtractText,
    ExtractImages,
    ImageToPdf,
    PdfToImages,
    Merge,
    Linearize,
    Encrypt,
    Decrypt,
    Analyze,
}

impl Default for PdfMode {
    fn default() -> (r: Self)
        ensures
            r == PdfMode::Compress,
    {
        PdfMode::Compress
    }
}

/// Ghostscript quality preset for PDF compression.
#[derive(Debug, Clone, Copy, PartialEq, Eq, Structural)]
pub enum PdfQuality {
    Screen,
    Ebook,
    Printer,
    Prepress,
    Default,
}

#[derive(Debug, Clone)]
pub struct DocumentRule {
    pub preset: String,
    pub subfolder: Option<String>,
    pub input_extensions: Vec<String>,
    pub output_ext: Option<String>,
    pub toc: Option<bool>,
    pub toc_depth: Option<u8>,
    pub css: Option<String>,
    pub template: Option<String>,
    pub standalone: Option<bool>,
    pub metadata: Option<Vec<String>>,
    pub pdf_engine: Option<String>,
    pub options: Option<Vec<String>>,
    pub output_name: Option<String>,
}

#[derive(Debug, Clone)]
pub struct CustomRule {
    pub preset: String,
    pub subfolder: Option<String>,
    pub input_extensions: Vec<String>,
    pub output_ext: Option<String>,
    pub command: Option<String>,
    pub output_name: Option<String>,
    pub description: Option<String>,
}


impl VideoRule {
    /// The two rules hold the same settings.
    pub open spec fn same(self, o: Self) -> bool {
        &&& self.preset == o.preset
        &&& self.subfolder == o.subfolder
        &&& self.input_extensions@ == o.input_extensions@
        &&& self.output_ext == o.output_ext
        &&& self.codec == o.codec
        &&& self.quality == o.quality
        &&& self.audio_codec == o.audio_codec
        &&& self.audio_bitrate == o.audio_bitrate
        &&& self.output_name == o.output_name
        &&& self.check_duration == o.check_duration
        &&& self.min_duration_ratio_bits == o.min_duration_ratio_bits
    }

    /// A copy of the rule.
    pub fn copied(&self) -> (r: Self)
        ensures
            r.same(*self),
    {
        VideoRule {
            preset: self.preset.clone(),
            subfolder: copy_opt(&self.subfolder),
            input_extensions: copy_strings(&self.input_extensions),
            output_ext: copy_opt(&self.output_ext),
            codec: copy_opt(&self.codec),
            quality: copy_opt(&self.quality),
            audio_codec: copy_opt(&self.audio_codec),
            audio_bitrate: copy_opt(&self.audio_bitrate),
            output_name: copy_opt(&self.output_name),
            check_duration: self.check_duration,
            min_duration_ratio_bits: self.min_duration_ratio_bits,
        }
    }
}

impl ImageRule {
    /// The two rules hold the same settings.
    pub open spec fn same(self, o: Self) -> bool {
        &&& self.preset == o.preset
        &&& self.subfolder == o.subfolder
        &&& self.input_extensions@ == o.input_extensions@
        &&& self.output_ext == o.output_ext
        &&& self.quality == o.quality
        &&& self.transparent == o.transparent
        &&& self.output_name == o.output_name
    }

    /// A copy of the rule.
    pub fn copied(&self) -> (r: Self)
        ensures
            r.same(*self),
    {
        ImageRule {
            preset: self.preset.clone(),
            subfolder: copy_opt(&self.subfolder),
            input_extensions: copy_strings(&self.input_extensions),
            output_ext: copy_opt(&self.output_ext),
            quality: self.quality,
            transparent: self.transparent,
            output_name: copy_opt(&self.output_name),
        }
    }
}

impl AudioRule {
    /// The two rules hold the same settings.
    pub open spec fn same(self, o: Self) -> bool {
        &&& self.preset == o.preset
        &&& self.subfolder == o.subfolder
        &&& self.input_extensions@ == o.input_extensions@
        &&& self.output_ext == o.output_ext
        &&& self.audio_codec == o.audio_codec
        &&& self.audio_bitrate == o.audio_bitrate
        &&& self.sample_rate == o.sample_rate
        &&& self.channels == o.channels
        &&& self.output_name == o.output_name
    }

    /// A copy of the rule.
    pub fn copied(&self) -> (r: Self)
        ensures
            r.same(*self),
    {
        AudioRule {
            preset: self.preset.clone(),
            subfolder: copy_opt(&self.subfolder),
            input_extensions: copy_strings(&self.input_extensions),
            output_ext: copy_opt(&self.output_ext),
            audio_codec: copy_opt(&self.audio_codec),
            audio_bitrate: copy_opt(&self.audio_bitrate),
            sample_rate: self.sample_rate,
            channels: self.channels,
            output_name: copy_opt(&self.output_name),
        }
    }
}

impl PdfRule {
    /// The two rules hold the same settings.
    pub open spec fn same(self, o: Self) -> bool {
        &&& self.preset == o.preset
        &&& self.subfolder == o.subfolder
        &&& self.input_extensions@ == o.input_extensions@
        &&& self.output_ext == o.output_ext
        &&& self.mode == o.mode
        &&& self.quality == o.quality
        &&& self.pdfa_version == o.pdfa_version
        &&& self.resolution == o.resolution
        &&& self.password == o.password
        &&& self.output_name == o.output_name
    }

    /// A copy of the rule.
    pub fn copied(&self) -> (r: Self)
        ensures
            r.same(*self),
    {
        PdfRule {
            preset: self.preset.clone(),
            subfolder: copy_opt(&self.subfolder),
            input_extensions: copy_strings(&self.input_extensions),
            output_ext: copy_opt(&self.output_ext),
            mode: self.mode,
            quality: self.quality,
            pdfa_version: copy_opt(&self.pdfa_version),
            resolution: self.resolution,
            password: copy_opt(&self.password),
            output_name: copy_opt(&self.output_name),
        }
    }
}

impl DocumentRule {
    /// The two rules hold the same settings.
    pub open spec fn same(self, o: Self) -> bool {
        &&& self.preset == o.preset
        &&& self.subfolder == o.subfolder
        &&& self.input_extensions@ == o.input_extensions@
        &&& self.output_ext == o.output_ext
        &&& self.toc == o.toc
        &&& self.toc_depth == o.toc_depth
        &&& self.css == o.css
        &&& self.template == o.template
        &&& self.standalone == o.standalone
        &&& same_opt_strings(self.metadata, o.metadata)
        &&& self.pdf_engine == o.pdf_engine
        &&& same_opt_strings(self.options, o.options)
        &&& self.output_name == o.output_name
    }

    /// A copy of the rule.
    pub fn copied(&self) -> (r: Self)
        ensures
            r.same(*self),
    {
        DocumentRule {
            preset: self.preset.clone(),
            subfolder: copy_opt(&self.subfolder),
            input_extensions: copy_strings(&self.input_extensions),
            output_ext: copy_opt(&self.output_ext),
            toc: self.toc,
            toc_depth: self.toc_depth,
            css: copy_opt(&self.css),
            template: copy_opt(&self.template),
            standalone: self.standalone,
            metadata: copy_opt_strings(&self.metadata),
            pdf_engine: copy_opt(&self.pdf_engine),
            options: copy_opt_strings(&self.options),
            output_name: copy_opt(&self.output_name),
        }
    }
}

impl CustomRule {
    /// The two rules hold the same settings.
    pub open spec fn same(self, o: Self) -> bool {
        &&& self.preset == o.preset
        &&& self.subfolder == o.subfolder
        &&& self.input_extensions@ == o.input_extensions@
        &&& self.output_ext == o.output_ext
        &&& self.command == o.command
        &&& self.output_name == o.output_name
        &&& self.description == o.description
    }

    /// A copy of the rule.
    pub fn copied(&self) -> (r: Self)
        ensures
            r.same(*self),
    {
        CustomRule {
            preset: self.preset.clone(),
            subfolder: copy_opt(&self.subfolder),
            input_extensions: copy_strings(&self.input_extensions),
            output_ext: copy_opt(&self.output_ext),
            command: copy_opt(&self.command),
            output_name: copy_opt(&self.output_name),
            description: copy_opt(&self.description),
        }
    }
}

} // verus!
