//! Configuration errors and their messages.
use vstd::prelude::*;
use crate::text::{append, decimal, decimal_string, owned};

verus! {

/// The kind of rule an error is about.
#[derive(Debug, Clone, Copy, PartialEq, Eq, Structural)]
pub enum RuleKind {
    Video,
    Image,
    Audio,
    Pdf,
    Document,
    Custom,
}

/// The capitalised name, the lower-case name and the preset file of a kind.
pub open spec fn kind_title(k: RuleKind) -> Seq<char> {
    match k {
        RuleKind::Video => "Video"@,
        RuleKind::Image => "Image"@,
        RuleKind::Audio => "Audio"@,
        RuleKind::Pdf => "PDF"@,
        RuleKind::Document => "Document"@,
        RuleKind::Custom => "Custom"@,
    }
}

pub open spec fn kind_word(k: RuleKind) -> Seq<char> {
    match k {
        RuleKind::Video => "video"@,
        RuleKind::Image => "image"@,
        RuleKind::Audio => "audio"@,
        RuleKind::Pdf => "pdf"@,
        RuleKind::Document => "document"@,
        RuleKind::Custom => "custom"@,
    }
}

pub open spec fn kind_file(k: RuleKind) -> Seq<char> {
    match k {
        RuleKind::Video => "video_codecs.yaml"@,
        RuleKind::Image => "image_codecs.yaml"@,
        RuleKind::Audio => "audio_codecs.yaml"@,
        RuleKind::Pdf => "pdf_presets.yaml"@,
        RuleKind::Document => "document_presets.yaml"@,
        RuleKind::Custom => "custom_presets.yaml"@,
    }
}

impl RuleKind {
    pub fn title(&self) -> (r: &'static str)
        ensures
            r@ == kind_title(*self),
    {
        match self {
            RuleKind::Video => "Video",
            RuleKind::Image => "Image",
            RuleKind::Audio => "Audio",
            RuleKind::Pdf => "PDF",
            RuleKind::Document => "Document",
            RuleKind::Custom => "Custom",
        }
    }

    pub fn word(&self) -> (r: &'static str)
        ensures
            r@ == kind_word(*self),
    {
        match self {
            RuleKind::Video => "video",
            RuleKind::Image => "image",
            RuleKind::Audio => "audio",
            RuleKind::Pdf => "pdf",
            RuleKind::Document => "document",
            RuleKind::Custom => "custom",
        }
    }

    pub fn file(&self) -> (r: &'static str)
        ensures
            r@ == kind_file(*self),
    {
        match self {
            RuleKind::Video => "video_codecs.yaml",
            RuleKind::Image => "image_codecs.yaml",
            RuleKind::Audio => "audio_codecs.yaml",
            RuleKind::Pdf => "pdf_presets.yaml",
            RuleKind::Document => "document_presets.yaml",
            RuleKind::Custom => "custom_presets.yaml",
        }
    }
}

/// Why a configuration was refused.
#[derive(Debug, Clone)]
pub enum ConfigError {
    /// A preset file name is absolute.
    PresetPathAbsolute { label: String, path: String },
    /// A preset file name has a `..` component.
    PresetPathParent { label: String, path: String },
    /// A rule names a preset that does not exist.
    PresetNotFound { kind: RuleKind, name: String },
    /// Neither a custom rule nor its preset gives a command.
    CustomPresetNoCommand { name: String },
    /// A path that must be absolute is not.
    NotAbsolute { label: String, path: String },
    /// A watcher's watch folder is empty.
    EmptyWatchFolder { watcher: String },
    /// A watcher's output folder is empty.
    EmptyOutputFolder { watcher: String },
    /// A rule lists no input extensions.
    EmptyExtensions { watcher: String, kind: RuleKind, index: usize },
    /// A scan interval is zero.
    ZeroInterval { field: String },
    /// A rule's subfolder holds `/`, `\` or `..`.
    UnsafeSubfolder { watcher: String, kind: RuleKind, index: usize, subfolder: String },
}

impl ConfigError {
    pub open spec fn spec_message(&self) -> Seq<char> {
        match self {
            ConfigError::PresetPathAbsolute { label, path } => "codec_presets."@ + label@
                + ": absolute path not allowed, got '"@ + path@ + "'"@,
            ConfigError::PresetPathParent { label, path } => "codec_presets."@ + label@
                + ": path must not contain '..', got '"@ + path@ + "'"@,
            ConfigError::PresetNotFound { kind, name } => kind_title(*kind) + " preset '"@ + name@
                + "' not found in "@ + kind_file(*kind),
            ConfigError::CustomPresetNoCommand { name } => "Custom preset '"@ + name@
                + "' has no command field"@,
            ConfigError::NotAbsolute { label, path } => label@
                + ": must be an absolute path, got '"@ + path@
                + "'. Example: /app/inputs/default/"@,
            ConfigError::EmptyWatchFolder { watcher } => "Watcher '"@ + watcher@
                + "': watch_folder must be an absolute path, got empty string"@,
            ConfigError::EmptyOutputFolder { watcher } => "Watcher '"@ + watcher@
                + "': output_folder must be an absolute path, got empty string"@,
            ConfigError::EmptyExtensions { watcher, kind, index } => "Watcher '"@ + watcher@
                + "', "@ + kind_word(*kind) + " rule "@ + decimal(*index as nat)
                + ": input_extensions must not be empty"@,
            ConfigError::ZeroInterval { field } => field@ + " must be greater than 0"@,
            ConfigError::UnsafeSubfolder { watcher, kind, index, subfolder } => "Watcher '"@
                + watcher@ + "', "@ + kind_word(*kind) + " rule "@ + decimal(*index as nat)
                + ": subfolder '"@ + subfolder@ + "' must not contain '/', '\\' or '..'"@,
        }
    }

    /// Human-readable description.
    pub fn message(&self) -> (r: String)
        ensures
            r@ == self.spec_message(),
    {
        match self {
            ConfigError::PresetPathAbsolute { label, path } => {
                let mut m = owned("codec_presets.");
                append(&mut m, label.as_str());
                append(&mut m, ": absolute path not allowed, got '");
                append(&mut m, path.as_str());
                append(&mut m, "'");
                m
            },
            ConfigError::PresetPathParent { label, path } => {
                let mut m = owned("codec_presets.");
                append(&mut m, label.as_str());
                append(&mut m, ": path must not contain '..', got '");
                append(&mut m, path.as_str());
                append(&mut m, "'");
                m
            },
            ConfigError::PresetNotFound { kind, name } => {
                let mut m = owned(kind.title());
                append(&mut m, " preset '");
                append(&mut m, name.as_str());
                append(&mut m, "' not found in ");
                append(&mut m, kind.file());
                m
            },
            ConfigError::CustomPresetNoCommand { name } => {
                let mut m = owned("Custom preset '");
                append(&mut m, name.as_str());
                append(&mut m, "' has no command field");
                m
            },
            ConfigError::NotAbsolute { label, path } => {
                let mut m = owned(label.as_str());
                append(&mut m, ": must be an absolute path, got '");
                append(&mut m, path.as_str());
                append(&mut m, "'. Example: /app/inputs/default/");
                m
            },
            ConfigError::EmptyWatchFolder { watcher } => {
                let mut m = owned("Watcher '");
                append(&mut m, watcher.as_str());
                append(&mut m, "': watch_folder must be an absolute path, got empty string");
                m
            },
            ConfigError::EmptyOutputFolder { watcher } => {
                let mut m = owned("Watcher '");
                append(&mut m, watcher.as_str());
                append(&mut m, "': output_folder must be an absolute path, got empty string");
                m
            },
            ConfigError::EmptyExtensions { watcher, kind, index } => {
                let mut m = owned("Watcher '");
                append(&mut m, watcher.as_str());
                append(&mut m, "', ");
                append(&mut m, kind.word());
                append(&mut m, " rule ");
                let d = decimal_string(*index as u64);
                append(&mut m, d.as_str());
                append(&mut m, ": input_extensions must not be empty");
                m
            },
            ConfigError::ZeroInterval { field } => {
                let mut m = owned(field.as_str());
                append(&mut m, " must be greater than 0");
                m
            },
            ConfigError::UnsafeSubfolder { watcher, kind, index, subfolder } => {
                let mut m = owned("Watcher '");
                append(&mut m, watcher.as_str());
                append(&mut m, "', ");
                append(&mut m, kind.word());
                append(&mut m, " rule ");
                let d = decimal_string(*index as u64);
                append(&mut m, d.as_str());
                append(&mut m, ": subfolder '");
                append(&mut m, subfolder.as_str());
                append(&mut m, "' must not contain '/', '\\' or '..'");
                m
            },
        }
    }
}

} // verus!
