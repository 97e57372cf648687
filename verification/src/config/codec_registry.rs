//! Codec presets and rule resolution: every rule names a preset, and the
//! rule's own settings override the preset's, which override the built-in
//! defaults.
use vstd::prelude::*;
use crate::config::error::{ConfigError, RuleKind};
use crate::config::watch::{
    AudioRule, CustomRule, DocumentRule, ImageRule, PdfMode, PdfQuality, PdfRule, VideoRule,
    WatchConfig, WatchType,
};
use crate::paths::{contains_parent_segment, has_parent_segment, has_root, is_rooted};
use crate::text::{owned, parse_u32, parse_u32_spec, str_eq, views};

verus! {

/// File names of the preset files, relative to the configuration directory.
#[derive(Debug, Clone)]
pub struct CodecPresetPaths {
    pub video: String,
    pub audio: String,
    pub image: String,
    pub pdf: String,
    pub document: String,
    pub custom: String,
}

pub fn default_video_presets() -> (r: String)
    ensures
        r@ == "video_codecs.yaml"@,
{
    owned("video_codecs.yaml")
}

pub fn default_audio_presets() -> (r: String)
    ensures
        r@ == "audio_codecs.yaml"@,
{
    owned("audio_codecs.yaml")
}

pub fn default_image_presets() -> (r: String)
    ensures
        r@ == "image_codecs.yaml"@,
{
    owned("image_codecs.yaml")
}

pub fn default_pdf_presets() -> (r: String)
    ensures
        r@ == "pdf_presets.yaml"@,
{
    owned("pdf_presets.yaml")
}

pub fn default_document_presets() -> (r: String)
    ensures
        r@ == "document_presets.yaml"@,
{
    owned("document_presets.yaml")
}

pub fn default_custom_presets() -> (r: String)
    ensures
        r@ == "custom_presets.yaml"@,
{
    owned("custom_presets.yaml")
}

pub open spec fn preset_paths_are_default(p: CodecPresetPaths) -> bool {
    &&& p.video@ == "video_codecs.yaml"@
    &&& p.audio@ == "audio_codecs.yaml"@
    &&& p.image@ == "image_codecs.yaml"@
    &&& p.pdf@ == "pdf_presets.yaml"@
    &&& p.document@ == "document_presets.yaml"@
    &&& p.custom@ == "custom_presets.yaml"@
}

impl Default for CodecPresetPaths {
    fn default() -> (r: Self)
        ensures
            preset_paths_are_default(r),
    {
        CodecPresetPaths {
            video: default_video_presets(),
            audio: default_audio_presets(),
            image: default_image_presets(),
            pdf: default_pdf_presets(),
            document: default_document_presets(),
            custom: default_custom_presets(),
        }
    }
}

/// A preset loaded from a preset file; every setting is optional.
#[derive(Debug, Clone)]
pub struct CodecPreset {
    pub codec: Option<String>,
    pub quality: Option<String>,
    pub audio_codec: Option<String>,
    pub audio_bitrate: Option<String>,
    pub sample_rate: Option<u32>,
    pub channels: Option<u8>,
    pub transparent: Option<bool>,
    pub mode: Option<PdfMode>,
    pub pdf_quality: Option<PdfQuality>,
    pub pdfa_version: Option<String>,
    pub resolution: Option<u32>,
    pub password: Option<String>,
    pub pdf_engine: Option<String>,
    pub toc: Option<bool>,
    pub toc_depth: Option<u8>,
    pub css: Option<String>,
    pub template: Option<String>,
    pub standalone: Option<bool>,
    pub metadata: Option<Vec<String>>,
    pub options: Option<Vec<String>>,
    pub command: Option<String>,
    pub output_ext: Option<String>,
    pub description: Option<String>,
}

impl Default for CodecPreset {
    fn default() -> (r: Self)
        ensures
            r.codec is None && r.quality is None && r.audio_codec is None && r.audio_bitrate is None
                && r.sample_rate is None && r.channels is None && r.transparent is None
                && r.mode is None && r.pdf_quality is None && r.pdfa_version is None
                && r.resolution is None && r.password is None && r.pdf_engine is None
                && r.toc is None && r.toc_depth is None && r.css is None && r.template is None
                && r.standalone is None && r.metadata is None && r.options is None
                && r.command is None && r.output_ext is None && r.description is None,
    {
        CodecPreset {
            codec: None,
            quality: None,
            audio_codec: None,
            audio_bitrate: None,
            sample_rate: None,
            channels: None,
            transparent: None,
            mode: None,
            pdf_quality: None,
            pdfa_version: None,
            resolution: None,
            password: None,
            pdf_engine: None,
            toc: None,
            toc_depth: None,
            css: None,
            template: None,
            standalone: None,
            metadata: None,
            options: None,
            command: None,
            output_ext: None,
            description: None,
        }
    }
}

/// Presets by name: the later of two entries with the same name wins.
pub open spec fn table_map(entries: Seq<(String, CodecPreset)>) -> Map<Seq<char>, CodecPreset>
    decreases entries.len(),
{
    if entries.len() == 0 {
        Map::empty()
    } else {
        table_map(entries.drop_last()).insert(entries.last().0@, entries.last().1)
    }
}

proof fn lemma_table_map_last(entries: Seq<(String, CodecPreset)>, key: Seq<char>, j: int)
    requires
        0 <= j < entries.len(),
        entries[j].0@ == key,
        forall|k: int| j < k < entries.len() ==> #[trigger] entries[k].0@ != key,
    ensures
        table_map(entries).contains_key(key),
        table_map(entries)[key] == entries[j].1,
    decreases entries.len(),
{
    if j < entries.len() - 1 {
        let d = entries.drop_last();
        assert forall|k: int| j < k < d.len() implies #[trigger] d[k].0@ != key by {
            assert(d[k] == entries[k]);
        }
        lemma_table_map_last(d, key, j);
    }
}

proof fn lemma_table_map_absent(entries: Seq<(String, CodecPreset)>, key: Seq<char>)
    requires
        forall|k: int| 0 <= k < entries.len() ==> #[trigger] entries[k].0@ != key,
    ensures
        !table_map(entries).contains_key(key),
    decreases entries.len(),
{
    if entries.len() > 0 {
        let d = entries.drop_last();
        assert forall|k: int| 0 <= k < d.len() implies #[trigger] d[k].0@ != key by {
            assert(d[k] == entries[k]);
        }
        lemma_table_map_absent(d, key);
    }
}

/// A table of named presets.
#[derive(Debug, Clone)]
pub struct PresetTable {
    entries: Vec<(String, CodecPreset)>,
}

impl View for PresetTable {
    type V = Map<Seq<char>, CodecPreset>;

    closed spec fn view(&self) -> Map<Seq<char>, CodecPreset> {
        table_map(self.entries@)
    }
}

impl PresetTable {
    /// An empty table.
    pub fn new() -> (r: Self)
        ensures
            r@ == Map::<Seq<char>, CodecPreset>::empty(),
    {
        PresetTable { entries: Vec::new() }
    }

    /// Adds or replaces the preset called `name`.
    pub fn insert(&mut self, name: String, preset: CodecPreset)
        ensures
            final(self)@ == old(self)@.insert(name@, preset),
    {
        let ghost before = self.entries@;
        self.entries.push((name, preset));
        assert(self.entries@.drop_last() =~= before);
    }

    /// The preset called `name`, if any.
    pub fn get(&self, name: &str) -> (r: Option<&CodecPreset>)
        ensures
            match r {
                Some(p) => self@.contains_key(name@) && *p == self@[name@],
                None => !self@.contains_key(name@),
            },
    {
        let mut i = self.entries.len();
        while i > 0
            invariant
                i <= self.entries@.len(),
                forall|k: int| i <= k < self.entries@.len() ==> #[trigger] self.entries@[k].0@ != name@,
            decreases i,
        {
            i = i - 1;
            if str_eq(self.entries[i].0.as_str(), name) {
                proof {
                    lemma_table_map_last(self.entries@, name@, i as int);
                }
                return Some(&self.entries[i].1);
            }
        }
        proof {
            lemma_table_map_absent(self.entries@, name@);
        }
        None
    }
}

/// All loaded presets, by watcher type.
#[derive(Debug, Clone)]
pub struct CodecRegistry {
    pub video: PresetTable,
    pub audio: PresetTable,
    pub image: PresetTable,
    pub pdf: PresetTable,
    pub document: PresetTable,
    pub custom: PresetTable,
}

/// The outcome of checking a preset file name.
pub open spec fn preset_path_result(path: Seq<char>, label: Seq<char>, r: Result<(), ConfigError>) -> bool {
    if has_root(path) {
        r matches Err(ConfigError::PresetPathAbsolute { label: l, path: p }) && l@ == label && p@
            == path
    } else if has_parent_segment(path) {
        r matches Err(ConfigError::PresetPathParent { label: l, path: p }) && l@ == label && p@
            == path
    } else {
        r is Ok
    }
}

/// A preset file name must be relative and must not climb out with `..`.
pub fn validate_preset_path(path: &str, label: &str) -> (r: Result<(), ConfigError>)
    ensures
        preset_path_result(path@, label@, r),
{
    if is_rooted(path) {
        return Err(ConfigError::PresetPathAbsolute { label: owned(label), path: owned(path) });
    }
    if contains_parent_segment(path) {
        return Err(ConfigError::PresetPathParent { label: owned(label), path: owned(path) });
    }
    Ok(())
}

/// Every preset file name is acceptable.
pub open spec fn preset_paths_ok(p: CodecPresetPaths) -> bool {
    &&& !has_root(p.video@) && !has_parent_segment(p.video@)
    &&& !has_root(p.audio@) && !has_parent_segment(p.audio@)
    &&& !has_root(p.image@) && !has_parent_segment(p.image@)
    &&& !has_root(p.pdf@) && !has_parent_segment(p.pdf@)
    &&& !has_root(p.document@) && !has_parent_segment(p.document@)
    &&& !has_root(p.custom@) && !has_parent_segment(p.custom@)
}

/// Checks all six preset file names, in the order video, audio, image, pdf,
/// document, custom, and reports the first refusal.
pub fn validate_preset_paths(paths: &CodecPresetPaths) -> (r: Result<(), ConfigError>)
    ensures
        r is Ok <==> preset_paths_ok(*paths),
        r matches Err(e) ==> (e is PresetPathAbsolute || e is PresetPathParent),
{
    validate_preset_path(paths.video.as_str(), "video")?;
    validate_preset_path(paths.audio.as_str(), "audio")?;
    validate_preset_path(paths.image.as_str(), "image")?;
    validate_preset_path(paths.pdf.as_str(), "pdf")?;
    validate_preset_path(paths.document.as_str(), "document")?;
    validate_preset_path(paths.custom.as_str(), "custom")?;
    Ok(())
}

impl CodecRegistry {
    /// A registry with no presets.
    pub fn new() -> (r: Self)
        ensures
            r.video@ == Map::<Seq<char>, CodecPreset>::empty(),
            r.audio@ == Map::<Seq<char>, CodecPreset>::empty(),
            r.image@ == Map::<Seq<char>, CodecPreset>::empty(),
            r.pdf@ == Map::<Seq<char>, CodecPreset>::empty(),
            r.document@ == Map::<Seq<char>, CodecPreset>::empty(),
            r.custom@ == Map::<Seq<char>, CodecPreset>::empty(),
    {
        CodecRegistry {
            video: PresetTable::new(),
            audio: PresetTable::new(),
            image: PresetTable::new(),
            pdf: PresetTable::new(),
            document: PresetTable::new(),
            custom: PresetTable::new(),
        }
    }

    /// Assembles a registry from the preset tables read from the files that
    /// `paths` names, after checking those names.
    pub fn load(
        paths: &CodecPresetPaths,
        video: PresetTable,
        audio: PresetTable,
        image: PresetTable,
        pdf: PresetTable,
        document: PresetTable,
        custom: PresetTable,
    ) -> (r: Result<Self, ConfigError>)
        ensures
            r is Ok <==> preset_paths_ok(*paths),
            r matches Ok(reg) ==> reg.video@ == video@ && reg.audio@ == audio@ && reg.image@
                == image@ && reg.pdf@ == pdf@ && reg.document@ == document@ && reg.custom@
                == custom@,
    {
        validate_preset_paths(paths)?;
        Ok(CodecRegistry { video, audio, image, pdf, document, custom })
    }
}

// ---------------------------------------------------------------------------
// Rule resolution
// ---------------------------------------------------------------------------

pub open spec fn opt_text(o: Option<String>) -> Option<Seq<char>> {
    match o {
        Some(s) => Some(s@),
        None => None,
    }
}

pub open spec fn opt_views(o: Option<Vec<String>>) -> Option<Seq<Seq<char>>> {
    match o {
        Some(v) => Some(views(v@)),
        None => None,
    }
}

/// The rule's setting, else the preset's.
pub open spec fn layered_opt(over: Option<String>, preset: Option<String>) -> Option<Seq<char>> {
    match over {
        Some(s) => Some(s@),
        None => opt_text(preset),
    }
}

/// The rule's setting, else the preset's, else `d`.
pub open spec fn layered(over: Option<String>, preset: Option<String>, d: Seq<char>) -> Seq<char> {
    match layered_opt(over, preset) {
        Some(s) => s,
        None => d,
    }
}

/// The first present value of the two.
pub open spec fn either<T>(a: Option<T>, b: Option<T>) -> Option<T> {
    match a {
        Some(x) => Some(x),
        None => b,
    }
}

/// `o` is present and holds the text `t`.
pub open spec fn holds(o: Option<String>, t: Seq<char>) -> bool {
    o matches Some(s) && s@ == t
}

/// The `IEEE-754` bit pattern of the default minimum duration ratio, 0.9.
pub const DEFAULT_MIN_DURATION_RATIO_BITS: u64 = 0x3FEC_CCCC_CCCC_CCCD;

fn layer(over: Option<String>, preset: &Option<String>, d: &str) -> (r: String)
    ensures
        r@ == layered(over, *preset, d@),
{
    match over {
        Some(s) => s,
        None => match preset {
            Some(p) => p.clone(),
            None => owned(d),
        },
    }
}

fn layer_opt(over: Option<String>, preset: &Option<String>) -> (r: Option<String>)
    ensures
        opt_text(r) == layered_opt(over, *preset),
{
    match over {
        Some(s) => Some(s),
        None => match preset {
            Some(p) => Some(p.clone()),
            None => None,
        },
    }
}

fn layer_list(over: Option<Vec<String>>, preset: &Option<Vec<String>>) -> (r: Option<Vec<String>>)
    ensures
        opt_views(r) == (match over {
            Some(v) => Some(views(v@)),
            None => opt_views(*preset),
        }),
{
    match over {
        Some(v) => Some(v),
        None => match preset {
            Some(p) => {
                let mut c: Vec<String> = Vec::new();
                let mut i: usize = 0;
                while i < p.len()
                    invariant
                        i <= p@.len(),
                        views(c@) == views(p@).take(i as int),
                    decreases p@.len() - i,
                {
                    let ghost before = c@;
                    c.push(p[i].clone());
                    proof {
                        assert(views(c@) =~= views(before).push(p@[i as int]@));
                        assert(views(p@).take(i + 1) =~= views(p@).take(i as int).push(
                            views(p@)[i as int],
                        ));
                    }
                    i = i + 1;
                }
                assert(views(p@).take(p@.len() as int) =~= views(p@));
                Some(c)
            },
            None => None,
        },
    }
}

/// A resolved video rule: settings layered over the preset and defaults.
pub open spec fn video_resolved(
    preset_name: Seq<char>,
    input_extensions: Seq<Seq<char>>,
    subfolder: Option<Seq<char>>,
    output_name: Option<Seq<char>>,
    check_duration: Option<bool>,
    min_duration_ratio_bits: Option<u64>,
    codec: Option<String>,
    quality: Option<String>,
    audio_codec: Option<String>,
    audio_bitrate: Option<String>,
    output_ext: Option<String>,
    p: CodecPreset,
    out: VideoRule,
) -> bool {
    &&& out.preset@ == preset_name
    &&& opt_text(out.subfolder) == subfolder
    &&& views(out.input_extensions@) == input_extensions
    &&& holds(out.output_ext, layered(output_ext, p.output_ext, ".mp4"@))
    &&& holds(out.codec, layered(codec, p.codec, "libx264"@))
    &&& holds(out.quality, layered(quality, p.quality, "crf 23"@))
    &&& holds(out.audio_codec, layered(audio_codec, p.audio_codec, "aac"@))
    &&& holds(out.audio_bitrate, layered(audio_bitrate, p.audio_bitrate, "128k"@))
    &&& holds(
        out.output_name,
        match output_name {
            Some(n) => n,
            None => "{base}_{codec}_{num}.{ext}"@,
        },
    )
    &&& out.check_duration == Some(
        match check_duration {
            Some(b) => b,
            None => true,
        },
    )
    &&& out.min_duration_ratio_bits == Some(
        match min_duration_ratio_bits {
            Some(b) => b,
            None => DEFAULT_MIN_DURATION_RATIO_BITS,
        },
    )
}

/// Resolves a video rule against the video presets. Refused when the preset
/// does not exist.
pub fn resolve_video_rule(
    preset_name: &str,
    input_extensions: Vec<String>,
    subfolder: Option<String>,
    output_name: Option<String>,
    check_duration: Option<bool>,
    min_duration_ratio_bits: Option<u64>,
    codec: Option<String>,
    quality: Option<String>,
    audio_codec: Option<String>,
    audio_bitrate: Option<String>,
    output_ext: Option<String>,
    registry: &CodecRegistry,
) -> (r: Result<VideoRule, ConfigError>)
    ensures
        registry.video@.contains_key(preset_name@) <==> r is Ok,
        r matches Ok(rule) ==> video_resolved(
            preset_name@,
            views(input_extensions@),
            opt_text(subfolder),
            opt_text(output_name),
            check_duration,
            min_duration_ratio_bits,
            codec,
            quality,
            audio_codec,
            audio_bitrate,
            output_ext,
            registry.video@[preset_name@],
            rule,
        ),
        r matches Err(e) ==> e matches ConfigError::PresetNotFound { kind, name } && kind
            == RuleKind::Video && name@ == preset_name@,
{
    let preset = match registry.video.get(preset_name) {
        Some(p) => p,
        None => {
            return Err(
                ConfigError::PresetNotFound { kind: RuleKind::Video, name: owned(preset_name) },
            );
        },
    };
    Ok(VideoRule {
        preset: owned(preset_name),
        subfolder,
        input_extensions,
        output_ext: Some(layer(output_ext, &preset.output_ext, ".mp4")),
        codec: Some(layer(codec, &preset.codec, "libx264")),
        quality: Some(layer(quality, &preset.quality, "crf 23")),
        audio_codec: Some(layer(audio_codec, &preset.audio_codec, "aac")),
        audio_bitrate: Some(layer(audio_bitrate, &preset.audio_bitrate, "128k")),
        output_name: Some(
            match output_name {
                Some(n) => n,
                None => owned("{base}_{codec}_{num}.{ext}"),
            },
        ),
        check_duration: Some(
            match check_duration {
                Some(b) => b,
                None => true,
            },
        ),
        min_duration_ratio_bits: Some(
            match min_duration_ratio_bits {
                Some(b) => b,
                None => DEFAULT_MIN_DURATION_RATIO_BITS,
            },
        ),
    })
}

/// The image quality: the rule's, else the preset's text read as a number
/// (ignored when it is not one), else 90.
pub open spec fn image_quality(quality: Option<u32>, preset_quality: Option<String>) -> u32 {
    match quality {
        Some(q) => q,
        None => match preset_quality {
            Some(s) => match parse_u32_spec(s@) {
                Some(v) => v,
                None => 90,
            },
            None => 90,
        },
    }
}

pub open spec fn image_resolved(
    preset_name: Seq<char>,
    input_extensions: Seq<Seq<char>>,
    subfolder: Option<Seq<char>>,
    output_name: Option<Seq<char>>,
    quality: Option<u32>,
    transparent: Option<bool>,
    output_ext: Option<String>,
    p: CodecPreset,
    out: ImageRule,
) -> bool {
    &&& out.preset@ == preset_name
    &&& opt_text(out.subfolder) == subfolder
    &&& views(out.input_extensions@) == input_extensions
    &&& holds(out.output_ext, layered(output_ext, p.output_ext, ".png"@))
    &&& out.quality == Some(image_quality(quality, p.quality))
    &&& out.transparent == Some(
        match either(transparent, p.transparent) {
            Some(b) => b,
            None => false,
        },
    )
    &&& holds(
        out.output_name,
        match output_name {
            Some(n) => n,
            None => "{base}_conv.{ext}"@,
        },
    )
}

/// Resolves an image rule against the image presets.
pub fn resolve_image_rule(
    preset_name: &str,
    input_extensions: Vec<String>,
    subfolder: Option<String>,
    output_name: Option<String>,
    quality: Option<u32>,
    transparent: Option<bool>,
    output_ext: Option<String>,
    registry: &CodecRegistry,
) -> (r: Result<ImageRule, ConfigError>)
    ensures
        registry.image@.contains_key(preset_name@) <==> r is Ok,
        r matches Ok(rule) ==> image_resolved(
            preset_name@,
            views(input_extensions@),
            opt_text(subfolder),
            opt_text(output_name),
            quality,
            transparent,
            output_ext,
            registry.image@[preset_name@],
            rule,
        ),
        r matches Err(e) ==> e matches ConfigError::PresetNotFound { kind, name } && kind
            == RuleKind::Image && name@ == preset_name@,
{
    let preset = match registry.image.get(preset_name) {
        Some(p) => p,
        None => {
            return Err(
                ConfigError::PresetNotFound { kind: RuleKind::Image, name: owned(preset_name) },
            );
        },
    };
    let q = match quality {
        Some(q) => q,
        None => match &preset.quality {
            Some(s) => match parse_u32(s.as_str()) {
                Some(v) => v,
                None => 90,
            },
            None => 90,
        },
    };
    let t = match transparent {
        Some(b) => b,
        None => match preset.transparent {
            Some(b) => b,
            None => false,
        },
    };
    Ok(ImageRule {
        preset: owned(preset_name),
        subfolder,
        input_extensions,
        output_ext: Some(layer(output_ext, &preset.output_ext, ".png")),
        quality: Some(q),
        transparent: Some(t),
        output_name: Some(
            match output_name {
                Some(n) => n,
                None => owned("{base}_conv.{ext}"),
            },
        ),
    })
}

pub open spec fn audio_resolved(
    preset_name: Seq<char>,
    input_extensions: Seq<Seq<char>>,
    subfolder: Option<Seq<char>>,
    output_name: Option<Seq<char>>,
    audio_codec: Option<String>,
    audio_bitrate: Option<String>,
    sample_rate: Option<u32>,
    channels: Option<u8>,
    output_ext: Option<String>,
    p: CodecPreset,
    out: AudioRule,
) -> bool {
    &&& out.preset@ == preset_name
    &&& opt_text(out.subfolder) == subfolder
    &&& views(out.input_extensions@) == input_extensions
    &&& holds(out.output_ext, layered(output_ext, p.output_ext, ".mp3"@))
    &&& holds(out.audio_codec, layered(audio_codec, p.audio_codec, "libmp3lame"@))
    &&& holds(out.audio_bitrate, layered(audio_bitrate, p.audio_bitrate, "192k"@))
    &&& out.sample_rate == either(sample_rate, p.sample_rate)
    &&& out.channels == either(channels, p.channels)
    &&& holds(
        out.output_name,
        match output_name {
            Some(n) => n,
            None => "{base}_{codec}_{num}.{ext}"@,
        },
    )
}

/// A setting resolved over three layers: the rule's own value when it sets
/// one, else the preset's, else the built-in default `d`.
pub open spec fn rule_over_preset(out: Option<String>, rule: Option<String>, preset: Option<String>, d: Seq<char>) -> bool {
    &&& rule matches Some(v) ==> (out matches Some(o) && o@ == v@)
    &&& rule is None ==> (preset matches Some(v) ==> (out matches Some(o) && o@ == v@))
    &&& (rule is None && preset is None) ==> (out matches Some(o) && o@ == d)
}

/// An audio rule's own settings win over its preset's: each of the codec,
/// bitrate, output extension, sample rate and channel count is the rule's
/// when it sets one, the preset's when only the preset does, and the
/// built-in default otherwise.
pub proof fn law_audio_rule_over_preset(
    preset_name: Seq<char>,
    input_extensions: Seq<Seq<char>>,
    subfolder: Option<Seq<char>>,
    output_name: Option<Seq<char>>,
    audio_codec: Option<String>,
    audio_bitrate: Option<String>,
    sample_rate: Option<u32>,
    channels: Option<u8>,
    output_ext: Option<String>,
    p: CodecPreset,
    out: AudioRule,
)
    requires
        audio_resolved(
            preset_name,
            input_extensions,
            subfolder,
            output_name,
            audio_codec,
            audio_bitrate,
            sample_rate,
            channels,
            output_ext,
            p,
            out,
        ),
    ensures
        rule_over_preset(out.audio_codec, audio_codec, p.audio_codec, "libmp3lame"@),
        rule_over_preset(out.audio_bitrate, audio_bitrate, p.audio_bitrate, "192k"@),
        rule_over_preset(out.output_ext, output_ext, p.output_ext, ".mp3"@),
        sample_rate matches Some(v) ==> out.sample_rate == Some(v),
        sample_rate is None ==> out.sample_rate == p.sample_rate,
        channels matches Some(v) ==> out.channels == Some(v),
        channels is None ==> out.channels == p.channels,
{
}

/// A video rule's own settings win over its preset's: each of the codec,
/// quality, audio codec, audio bitrate and output extension is the rule's
/// when it sets one, the preset's when only the preset does, and the
/// built-in default otherwise.
pub proof fn law_video_rule_over_preset(
    preset_name: Seq<char>,
    input_extensions: Seq<Seq<char>>,
    subfolder: Option<Seq<char>>,
    output_name: Option<Seq<char>>,
    check_duration: Option<bool>,
    min_duration_ratio_bits: Option<u64>,
    codec: Option<String>,
    quality: Option<String>,
    audio_codec: Option<String>,
    audio_bitrate: Option<String>,
    output_ext: Option<String>,
    p: CodecPreset,
    out: VideoRule,
)
    requires
        video_resolved(
            preset_name,
            input_extensions,
            subfolder,
            output_name,
            check_duration,
            min_duration_ratio_bits,
            codec,
            quality,
            audio_codec,
            audio_bitrate,
            output_ext,
            p,
            out,
        ),
    ensures
        rule_over_preset(out.codec, codec, p.codec, "libx264"@),
        rule_over_preset(out.quality, quality, p.quality, "crf 23"@),
        rule_over_preset(out.audio_codec, audio_codec, p.audio_codec, "aac"@),
        rule_over_preset(out.audio_bitrate, audio_bitrate, p.audio_bitrate, "128k"@),
        rule_over_preset(out.output_ext, output_ext, p.output_ext, ".mp4"@),
{
}

/// Resolves an audio rule against the audio presets.
pub fn resolve_audio_rule(
    preset_name: &str,
    input_extensions: Vec<String>,
    subfolder: Option<String>,
    output_name: Option<String>,
    audio_codec: Option<String>,
    audio_bitrate: Option<String>,
    sample_rate: Option<u32>,
    channels: Option<u8>,
    output_ext: Option<String>,
    registry: &CodecRegistry,
) -> (r: Result<AudioRule, ConfigError>)
    ensures
        registry.audio@.contains_key(preset_name@) <==> r is Ok,
        r matches Ok(rule) ==> audio_resolved(
            preset_name@,
            views(input_extensions@),
            opt_text(subfolder),
            opt_text(output_name),
            audio_codec,
            audio_bitrate,
            sample_rate,
            channels,
            output_ext,
            registry.audio@[preset_name@],
            rule,
        ),
        r matches Err(e) ==> e matches ConfigError::PresetNotFound { kind, name } && kind
            == RuleKind::Audio && name@ == preset_name@,
{
    let preset = match registry.audio.get(preset_name) {
        Some(p) => p,
        None => {
            return Err(
                ConfigError::PresetNotFound { kind: RuleKind::Audio, name: owned(preset_name) },
            );
        },
    };
    Ok(AudioRule {
        preset: owned(preset_name),
        subfolder,
        input_extensions,
        output_ext: Some(layer(output_ext, &preset.output_ext, ".mp3")),
        audio_codec: Some(layer(audio_codec, &preset.audio_codec, "libmp3lame")),
        audio_bitrate: Some(layer(audio_bitrate, &preset.audio_bitrate, "192k")),
        sample_rate: match sample_rate {
            Some(v) => Some(v),
            None => preset.sample_rate,
        },
        channels: match channels {
            Some(v) => Some(v),
            None => preset.channels,
        },
        output_name: Some(
            match output_name {
                Some(n) => n,
                None => owned("{base}_{codec}_{num}.{ext}"),
            },
        ),
    })
}

pub open spec fn pdf_resolved(
    preset_name: Seq<char>,
    input_extensions: Seq<Seq<char>>,
    subfolder: Option<Seq<char>>,
    output_name: Option<Seq<char>>,
    mode: Option<PdfMode>,
    pdf_quality: Option<PdfQuality>,
    pdfa_version: Option<String>,
    resolution: Option<u32>,
    password: Option<String>,
    output_ext: Option<String>,
    p: CodecPreset,
    out: PdfRule,
) -> bool {
    &&& out.preset@ == preset_name
    &&& opt_text(out.subfolder) == subfolder
    &&& views(out.input_extensions@) == input_extensions
    &&& holds(out.output_ext, layered(output_ext, p.output_ext, ".pdf"@))
    &&& out.mode == Some(
        match either(mode, p.mode) {
            Some(m) => m,
            None => PdfMode::Compress,
        },
    )
    &&& out.quality == either(pdf_quality, p.pdf_quality)
    &&& opt_text(out.pdfa_version) == layered_opt(pdfa_version, p.pdfa_version)
    &&& out.resolution == either(resolution, p.resolution)
    &&& opt_text(out.password) == layered_opt(password, p.password)
    &&& holds(
        out.output_name,
        match output_name {
            Some(n) => n,
            None => "{base}_converted.{ext}"@,
        },
    )
}

/// Resolves a PDF rule against the PDF presets.
pub fn resolve_pdf_rule(
    preset_name: &str,
    input_extensions: Vec<String>,
    subfolder: Option<String>,
    output_name: Option<String>,
    mode: Option<PdfMode>,
    pdf_quality: Option<PdfQuality>,
    pdfa_version: Option<String>,
    resolution: Option<u32>,
    password: Option<String>,
    output_ext: Option<String>,
    registry: &CodecRegistry,
) -> (r: Result<PdfRule, ConfigError>)
    ensures
        registry.pdf@.contains_key(preset_name@) <==> r is Ok,
        r matches Ok(rule) ==> pdf_resolved(
            preset_name@,
            views(input_extensions@),
            opt_text(subfolder),
            opt_text(output_name),
            mode,
            pdf_quality,
            pdfa_version,
            resolution,
            password,
            output_ext,
            registry.pdf@[preset_name@],
            rule,
        ),
        r matches Err(e) ==> e matches ConfigError::PresetNotFound { kind, name } && kind
            == RuleKind::Pdf && name@ == preset_name@,
{
    let preset = match registry.pdf.get(preset_name) {
        Some(p) => p,
        None => {
            return Err(
                ConfigError::PresetNotFound { kind: RuleKind::Pdf, name: owned(preset_name) },
            );
        },
    };
    Ok(PdfRule {
        preset: owned(preset_name),
        subfolder,
        input_extensions,
        output_ext: Some(layer(output_ext, &preset.output_ext, ".pdf")),
        mode: Some(
            match mode {
                Some(m) => m,
                None => match preset.mode {
                    Some(m) => m,
                    None => PdfMode::Compress,
                },
            },
        ),
        quality: match pdf_quality {
            Some(q) => Some(q),
            None => preset.pdf_quality,
        },
        pdfa_version: layer_opt(pdfa_version, &preset.pdfa_version),
        resolution: match resolution {
            Some(v) => Some(v),
            None => preset.resolution,
        },
        password: layer_opt(password, &preset.password),
        output_name: Some(
            match output_name {
                Some(n) => n,
                None => owned("{base}_converted.{ext}"),
            },
        ),
    })
}

pub open spec fn document_resolved(
    preset_name: Seq<char>,
    input_extensions: Seq<Seq<char>>,
    subfolder: Option<Seq<char>>,
    output_name: Option<Seq<char>>,
    output_ext: Option<String>,
    toc: Option<bool>,
    toc_depth: Option<u8>,
    css: Option<String>,
    template: Option<String>,
    standalone: Option<bool>,
    metadata: Option<Seq<Seq<char>>>,
    pdf_engine: Option<String>,
    options: Option<Seq<Seq<char>>>,
    p: CodecPreset,
    out: DocumentRule,
) -> bool {
    &&& out.preset@ == preset_name
    &&& opt_text(out.subfolder) == subfolder
    &&& views(out.input_extensions@) == input_extensions
    &&& holds(out.output_ext, layered(output_ext, p.output_ext, ".pdf"@))
    &&& out.toc == Some(
        match either(toc, p.toc) {
            Some(b) => b,
            None => false,
        },
    )
    &&& out.toc_depth == either(toc_depth, p.toc_depth)
    &&& opt_text(out.css) == layered_opt(css, p.css)
    &&& opt_text(out.template) == layered_opt(template, p.template)
    &&& out.standalone == Some(
        match either(standalone, p.standalone) {
            Some(b) => b,
            None => false,
        },
    )
    &&& opt_views(out.metadata) == either(metadata, opt_views(p.metadata))
    &&& opt_text(out.pdf_engine) == layered_opt(pdf_engine, p.pdf_engine)
    &&& opt_views(out.options) == either(options, opt_views(p.options))
    &&& holds(
        out.output_name,
        match output_name {
            Some(n) => n,
            None => "{base}_converted.{ext}"@,
        },
    )
}

/// Resolves a document rule against the document presets.
pub fn resolve_document_rule(
    preset_name: &str,
    input_extensions: Vec<String>,
    subfolder: Option<String>,
    output_name: Option<String>,
    output_ext: Option<String>,
    toc: Option<bool>,
    toc_depth: Option<u8>,
    css: Option<String>,
    template: Option<String>,
    standalone: Option<bool>,
    metadata: Option<Vec<String>>,
    pdf_engine: Option<String>,
    options: Option<Vec<String>>,
    registry: &CodecRegistry,
) -> (r: Result<DocumentRule, ConfigError>)
    ensures
        registry.document@.contains_key(preset_name@) <==> r is Ok,
        r matches Ok(rule) ==> document_resolved(
            preset_name@,
            views(input_extensions@),
            opt_text(subfolder),
            opt_text(output_name),
            output_ext,
            toc,
            toc_depth,
            css,
            template,
            standalone,
            opt_views(metadata),
            pdf_engine,
            opt_views(options),
            registry.document@[preset_name@],
            rule,
        ),
        r matches Err(e) ==> e matches ConfigError::PresetNotFound { kind, name } && kind
            == RuleKind::Document && name@ == preset_name@,
{
    let preset = match registry.document.get(preset_name) {
        Some(p) => p,
        None => {
            return Err(
                ConfigError::PresetNotFound { kind: RuleKind::Document, name: owned(preset_name) },
            );
        },
    };
    Ok(DocumentRule {
        preset: owned(preset_name),
        subfolder,
        input_extensions,
        output_ext: Some(layer(output_ext, &preset.output_ext, ".pdf")),
        toc: Some(
            match toc {
                Some(b) => b,
                None => match preset.toc {
                    Some(b) => b,
                    None => false,
                },
            },
        ),
        toc_depth: match toc_depth {
            Some(v) => Some(v),
            None => preset.toc_depth,
        },
        css: layer_opt(css, &preset.css),
        template: layer_opt(template, &preset.template),
        standalone: Some(
            match standalone {
                Some(b) => b,
                None => match preset.standalone {
                    Some(b) => b,
                    None => false,
                },
            },
        ),
        metadata: layer_list(metadata, &preset.metadata),
        pdf_engine: layer_opt(pdf_engine, &preset.pdf_engine),
        options: layer_list(options, &preset.options),
        output_name: Some(
            match output_name {
                Some(n) => n,
                None => owned("{base}_converted.{ext}"),
            },
        ),
    })
}

pub open spec fn custom_resolved(
    preset_name: Seq<char>,
    input_extensions: Seq<Seq<char>>,
    subfolder: Option<Seq<char>>,
    output_name: Option<Seq<char>>,
    description: Option<String>,
    command: Option<String>,
    output_ext: Option<String>,
    p: CodecPreset,
    out: CustomRule,
) -> bool {
    &&& out.preset@ == preset_name
    &&& opt_text(out.subfolder) == subfolder
    &&& views(out.input_extensions@) == input_extensions
    &&& holds(out.output_ext, layered(output_ext, p.output_ext, ".mp4"@))
    &&& opt_text(out.command) == layered_opt(command, p.command)
    &&& holds(
        out.output_name,
        match output_name {
            Some(n) => n,
            None => "{base}_custom.{ext}"@,
        },
    )
    &&& opt_text(out.description) == layered_opt(description, p.description)
}

/// A custom rule resolves when its preset exists and the rule or the preset
/// gives a command.
pub open spec fn custom_resolvable(preset_name: Seq<char>, command: Option<String>, reg: CodecRegistry) -> bool {
    reg.custom@.contains_key(preset_name) && layered_opt(command, reg.custom@[preset_name].command)
        is Some
}

/// Resolves a custom rule against the custom presets. Refused when the
/// preset does not exist or neither it nor the rule gives a command.
pub fn resolve_custom_rule(
    preset_name: &str,
    input_extensions: Vec<String>,
    subfolder: Option<String>,
    output_name: Option<String>,
    description: Option<String>,
    command: Option<String>,
    output_ext: Option<String>,
    registry: &CodecRegistry,
) -> (r: Result<CustomRule, ConfigError>)
    ensures
        custom_resolvable(preset_name@, command, *registry) <==> r is Ok,
        r matches Ok(rule) ==> custom_resolved(
            preset_name@,
            views(input_extensions@),
            opt_text(subfolder),
            opt_text(output_name),
            description,
            command,
            output_ext,
            registry.custom@[preset_name@],
            rule,
        ),
        r matches Err(e) ==> (if registry.custom@.contains_key(preset_name@) {
            e matches ConfigError::CustomPresetNoCommand { name } && name@ == preset_name@
        } else {
            e matches ConfigError::PresetNotFound { kind, name } && kind == RuleKind::Custom
                && name@ == preset_name@
        }),
{
    let preset = match registry.custom.get(preset_name) {
        Some(p) => p,
        None => {
            return Err(
                ConfigError::PresetNotFound { kind: RuleKind::Custom, name: owned(preset_name) },
            );
        },
    };
    let cmd = match layer_opt(command, &preset.command) {
        Some(c) => c,
        None => {
            return Err(ConfigError::CustomPresetNoCommand { name: owned(preset_name) });
        },
    };
    Ok(CustomRule {
        preset: owned(preset_name),
        subfolder,
        input_extensions,
        output_ext: Some(layer(output_ext, &preset.output_ext, ".mp4")),
        command: Some(cmd),
        output_name: Some(
            match output_name {
                Some(n) => n,
                None => owned("{base}_custom.{ext}"),
            },
        ),
        description: layer_opt(description, &preset.description),
    })
}


// ---------------------------------------------------------------------------
// Resolving whole watchers
// ---------------------------------------------------------------------------

/// The video rule `a` resolves against the registry.
pub open spec fn video_rule_ok(a: VideoRule, reg: CodecRegistry) -> bool {
    reg.video@.contains_key(a.preset@)
}

/// `b` is the video rule `a` resolved against the registry.
pub open spec fn video_rule_resolved(a: VideoRule, reg: CodecRegistry, b: VideoRule) -> bool {
    video_resolved(
        a.preset@,
        views(a.input_extensions@),
        opt_text(a.subfolder),
        opt_text(a.output_name),
        a.check_duration,
        a.min_duration_ratio_bits,
        a.codec,
        a.quality,
        a.audio_codec,
        a.audio_bitrate,
        a.output_ext,
        reg.video@[a.preset@],
        b,
    )
}

/// `e` is the error resolving the video rule `a` reports.
pub open spec fn video_rule_error(a: VideoRule, reg: CodecRegistry, e: ConfigError) -> bool {
    e matches ConfigError::PresetNotFound { kind, name } && kind == RuleKind::Video
        && name@ == a.preset@
}

/// Resolves a list of video rules in order; the first failing rule's error
/// is reported.
pub fn resolve_video_rules(rules: Vec<VideoRule>, registry: &CodecRegistry) -> (r: Result<Vec<VideoRule>, ConfigError>)
    ensures
        r is Ok <==> forall|j: int| 0 <= j < rules@.len() ==> video_rule_ok(#[trigger] rules@[j], *registry),
        r matches Ok(out) ==> out@.len() == rules@.len() && forall|j: int|
            0 <= j < rules@.len() ==> video_rule_resolved(#[trigger] rules@[j], *registry, out@[j]),
        r matches Err(e) ==> exists|j: int|
            0 <= j < rules@.len() && !video_rule_ok(#[trigger] rules@[j], *registry) && (forall|l: int|
                0 <= l < j ==> video_rule_ok(#[trigger] rules@[l], *registry)) && video_rule_error(
                rules@[j],
                *registry,
                e,
            ),
{
    let ghost all = rules@;
    let mut rest = rules;
    let mut out: Vec<VideoRule> = Vec::new();
    let n = rest.len();
    let mut i: usize = 0;
    while i < n
        invariant
            n == all.len(),
            i <= n,
            rest@ == all.skip(i as int),
            all == rules@,
            out@.len() == i,
            forall|j: int| 0 <= j < i ==> video_rule_ok(#[trigger] all[j], *registry),
            forall|j: int| 0 <= j < i ==> video_rule_resolved(#[trigger] all[j], *registry, out@[j]),
        decreases n - i,
    {
        let rule = rest.remove(0);
        proof {
            assert(rule == all[i as int]);
            assert(rest@ =~= all.skip(i + 1));
        }
        let resolved = resolve_video_rule(
            rule.preset.as_str(),
            rule.input_extensions,
            rule.subfolder,
            rule.output_name,
            rule.check_duration,
            rule.min_duration_ratio_bits,
            rule.codec,
            rule.quality,
            rule.audio_codec,
            rule.audio_bitrate,
            rule.output_ext,
            registry,
        );
        match resolved {
            Ok(b) => {
                out.push(b);
            },
            Err(e) => {
                proof {
                    assert(!video_rule_ok(all[i as int], *registry));
                    assert(video_rule_error(all[i as int], *registry, e));
                    assert(exists|j: int|
                        0 <= j < all.len() && !video_rule_ok(#[trigger] all[j], *registry) && (forall|l: int|
                            0 <= l < j ==> video_rule_ok(#[trigger] all[l], *registry)) && video_rule_error(
                            all[j],
                            *registry,
                            e,
                        ));
                }
                return Err(e);
            },
        }
        i = i + 1;
    }
    Ok(out)
}

/// The image rule `a` resolves against the registry.
pub open spec fn image_rule_ok(a: ImageRule, reg: CodecRegistry) -> bool {
    reg.image@.contains_key(a.preset@)
}

/// `b` is the image rule `a` resolved against the registry.
pub open spec fn image_rule_resolved(a: ImageRule, reg: CodecRegistry, b: ImageRule) -> bool {
    image_resolved(
        a.preset@,
        views(a.input_extensions@),
        opt_text(a.subfolder),
        opt_text(a.output_name),
        a.quality,
        a.transparent,
        a.output_ext,
        reg.image@[a.preset@],
        b,
    )
}

/// `e` is the error resolving the image rule `a` reports.
pub open spec fn image_rule_error(a: ImageRule, reg: CodecRegistry, e: ConfigError) -> bool {
    e matches ConfigError::PresetNotFound { kind, name } && kind == RuleKind::Image
        && name@ == a.preset@
}

/// Resolves a list of image rules in order; the first failing rule's error
/// is reported.
pub fn resolve_image_rules(rules: Vec<ImageRule>, registry: &CodecRegistry) -> (r: Result<Vec<ImageRule>, ConfigError>)
    ensures
        r is Ok <==> forall|j: int| 0 <= j < rules@.len() ==> image_rule_ok(#[trigger] rules@[j], *registry),
        r matches Ok(out) ==> out@.len() == rules@.len() && forall|j: int|
            0 <= j < rules@.len() ==> image_rule_resolved(#[trigger] rules@[j], *registry, out@[j]),
        r matches Err(e) ==> exists|j: int|
            0 <= j < rules@.len() && !image_rule_ok(#[trigger] rules@[j], *registry) && (forall|l: int|
                0 <= l < j ==> image_rule_ok(#[trigger] rules@[l], *registry)) && image_rule_error(
                rules@[j],
                *registry,
                e,
            ),
{
    let ghost all = rules@;
    let mut rest = rules;
    let mut out: Vec<ImageRule> = Vec::new();
    let n = rest.len();
    let mut i: usize = 0;
    while i < n
        invariant
            n == all.len(),
            i <= n,
            rest@ == all.skip(i as int),
            all == rules@,
            out@.len() == i,
            forall|j: int| 0 <= j < i ==> image_rule_ok(#[trigger] all[j], *registry),
            forall|j: int| 0 <= j < i ==> image_rule_resolved(#[trigger] all[j], *registry, out@[j]),
        decreases n - i,
    {
        let rule = rest.remove(0);
        proof {
            assert(rule == all[i as int]);
            assert(rest@ =~= all.skip(i + 1));
        }
        let resolved = resolve_image_rule(
            rule.preset.as_str(),
            rule.input_extensions,
            rule.subfolder,
            rule.output_name,
            rule.quality,
            rule.transparent,
            rule.output_ext,
            registry,
        );
        match resolved {
            Ok(b) => {
                out.push(b);
            },
            Err(e) => {
                proof {
                    assert(!image_rule_ok(all[i as int], *registry));
                    assert(image_rule_error(all[i as int], *registry, e));
                    assert(exists|j: int|
                        0 <= j < all.len() && !image_rule_ok(#[trigger] all[j], *registry) && (forall|l: int|
                            0 <= l < j ==> image_rule_ok(#[trigger] all[l], *registry)) && image_rule_error(
                            all[j],
                            *registry,
                            e,
                        ));
                }
                return Err(e);
            },
        }
        i = i + 1;
    }
    Ok(out)
}

/// The audio rule `a` resolves against the registry.
pub open spec fn audio_rule_ok(a: AudioRule, reg: CodecRegistry) -> bool {
    reg.audio@.contains_key(a.preset@)
}

/// `b` is the audio rule `a` resolved against the registry.
pub open spec fn audio_rule_resolved(a: AudioRule, reg: CodecRegistry, b: AudioRule) -> bool {
    audio_resolved(
        a.preset@,
        views(a.input_extensions@),
        opt_text(a.subfolder),
        opt_text(a.output_name),
        a.audio_codec,
        a.audio_bitrate,
        a.sample_rate,
        a.channels,
        a.output_ext,
        reg.audio@[a.preset@],
        b,
    )
}

/// `e` is the error resolving the audio rule `a` reports.
pub open spec fn audio_rule_error(a: AudioRule, reg: CodecRegistry, e: ConfigError) -> bool {
    e matches ConfigError::PresetNotFound { kind, name } && kind == RuleKind::Audio
        && name@ == a.preset@
}

/// Resolves a list of audio rules in order; the first failing rule's error
/// is reported.
pub fn resolve_audio_rules(rules: Vec<AudioRule>, registry: &CodecRegistry) -> (r: Result<Vec<AudioRule>, ConfigError>)
    ensures
        r is Ok <==> forall|j: int| 0 <= j < rules@.len() ==> audio_rule_ok(#[trigger] rules@[j], *registry),
        r matches Ok(out) ==> out@.len() == rules@.len() && forall|j: int|
            0 <= j < rules@.len() ==> audio_rule_resolved(#[trigger] rules@[j], *registry, out@[j]),
        r matches Err(e) ==> exists|j: int|
            0 <= j < rules@.len() && !audio_rule_ok(#[trigger] rules@[j], *registry) && (forall|l: int|
                0 <= l < j ==> audio_rule_ok(#[trigger] rules@[l], *registry)) && audio_rule_error(
                rules@[j],
                *registry,
                e,
            ),
{
    let ghost all = rules@;
    let mut rest = rules;
    let mut out: Vec<AudioRule> = Vec::new();
    let n = rest.len();
    let mut i: usize = 0;
    while i < n
        invariant
            n == all.len(),
            i <= n,
            rest@ == all.skip(i as int),
            all == rules@,
            out@.len() == i,
            forall|j: int| 0 <= j < i ==> audio_rule_ok(#[trigger] all[j], *registry),
            forall|j: int| 0 <= j < i ==> audio_rule_resolved(#[trigger] all[j], *registry, out@[j]),
        decreases n - i,
    {
        let rule = rest.remove(0);
        proof {
            assert(rule == all[i as int]);
            assert(rest@ =~= all.skip(i + 1));
        }
        let resolved = resolve_audio_rule(
            rule.preset.as_str(),
            rule.input_extensions,
            rule.subfolder,
            rule.output_name,
            rule.audio_codec,
            rule.audio_bitrate,
            rule.sample_rate,
            rule.channels,
            rule.output_ext,
            registry,
        );
        match resolved {
            Ok(b) => {
                out.push(b);
            },
            Err(e) => {
                proof {
                    assert(!audio_rule_ok(all[i as int], *registry));
                    assert(audio_rule_error(all[i as int], *registry, e));
                    assert(exists|j: int|
                        0 <= j < all.len() && !audio_rule_ok(#[trigger] all[j], *registry) && (forall|l: int|
                            0 <= l < j ==> audio_rule_ok(#[trigger] all[l], *registry)) && audio_rule_error(
                            all[j],
                            *registry,
                            e,
                        ));
                }
                return Err(e);
            },
        }
        i = i + 1;
    }
    Ok(out)
}

/// The pdf rule `a` resolves against the registry.
pub open spec fn pdf_rule_ok(a: PdfRule, reg: CodecRegistry) -> bool {
    reg.pdf@.contains_key(a.preset@)
}

/// `b` is the pdf rule `a` resolved against the registry.
pub open spec fn pdf_rule_resolved(a: PdfRule, reg: CodecRegistry, b: PdfRule) -> bool {
    pdf_resolved(
        a.preset@,
        views(a.input_extensions@),
        opt_text(a.subfolder),
        opt_text(a.output_name),
        a.mode,
        a.quality,
        a.pdfa_version,
        a.resolution,
        a.password,
        a.output_ext,
        reg.pdf@[a.preset@],
        b,
    )
}

/// `e` is the error resolving the pdf rule `a` reports.
pub open spec fn pdf_rule_error(a: PdfRule, reg: CodecRegistry, e: ConfigError) -> bool {
    e matches ConfigError::PresetNotFound { kind, name } && kind == RuleKind::Pdf
        && name@ == a.preset@
}

/// Resolves a list of pdf rules in order; the first failing rule's error
/// is reported.
pub fn resolve_pdf_rules(rules: Vec<PdfRule>, registry: &CodecRegistry) -> (r: Result<Vec<PdfRule>, ConfigError>)
    ensures
        r is Ok <==> forall|j: int| 0 <= j < rules@.len() ==> pdf_rule_ok(#[trigger] rules@[j], *registry),
        r matches Ok(out) ==> out@.len() == rules@.len() && forall|j: int|
            0 <= j < rules@.len() ==> pdf_rule_resolved(#[trigger] rules@[j], *registry, out@[j]),
        r matches Err(e) ==> exists|j: int|
            0 <= j < rules@.len() && !pdf_rule_ok(#[trigger] rules@[j], *registry) && (forall|l: int|
                0 <= l < j ==> pdf_rule_ok(#[trigger] rules@[l], *registry)) && pdf_rule_error(
                rules@[j],
                *registry,
                e,
            ),
{
    let ghost all = rules@;
    let mut rest = rules;
    let mut out: Vec<PdfRule> = Vec::new();
    let n = rest.len();
    let mut i: usize = 0;
    while i < n
        invariant
            n == all.len(),
            i <= n,
            rest@ == all.skip(i as int),
            all == rules@,
            out@.len() == i,
            forall|j: int| 0 <= j < i ==> pdf_rule_ok(#[trigger] all[j], *registry),
            forall|j: int| 0 <= j < i ==> pdf_rule_resolved(#[trigger] all[j], *registry, out@[j]),
        decreases n - i,
    {
        let rule = rest.remove(0);
        proof {
            assert(rule == all[i as int]);
            assert(rest@ =~= all.skip(i + 1));
        }
        let resolved = resolve_pdf_rule(
            rule.preset.as_str(),
            rule.input_extensions,
            rule.subfolder,
            rule.output_name,
            rule.mode,
            rule.quality,
            rule.pdfa_version,
            rule.resolution,
            rule.password,
            rule.output_ext,
            registry,
        );
        match resolved {
            Ok(b) => {
                out.push(b);
            },
            Err(e) => {
                proof {
                    assert(!pdf_rule_ok(all[i as int], *registry));
                    assert(pdf_rule_error(all[i as int], *registry, e));
                    assert(exists|j: int|
                        0 <= j < all.len() && !pdf_rule_ok(#[trigger] all[j], *registry) && (forall|l: int|
                            0 <= l < j ==> pdf_rule_ok(#[trigger] all[l], *registry)) && pdf_rule_error(
                            all[j],
                            *registry,
                            e,
                        ));
                }
                return Err(e);
            },
        }
        i = i + 1;
    }
    Ok(out)
}

/// The document rule `a` resolves against the registry.
pub open spec fn document_rule_ok(a: DocumentRule, reg: CodecRegistry) -> bool {
    reg.document@.contains_key(a.preset@)
}

/// `b` is the document rule `a` resolved against the registry.
pub open spec fn document_rule_resolved(a: DocumentRule, reg: CodecRegistry, b: DocumentRule) -> bool {
    document_resolved(
        a.preset@,
        views(a.input_extensions@),
        opt_text(a.subfolder),
        opt_text(a.output_name),
        a.output_ext,
        a.toc,
        a.toc_depth,
        a.css,
        a.template,
        a.standalone,
        opt_views(a.metadata),
        a.pdf_engine,
        opt_views(a.options),
        reg.document@[a.preset@],
        b,
    )
}

/// `e` is the error resolving the document rule `a` reports.
pub open spec fn document_rule_error(a: DocumentRule, reg: CodecRegistry, e: ConfigError) -> bool {
    e matches ConfigError::PresetNotFound { kind, name } && kind == RuleKind::Document
        && name@ == a.preset@
}

/// Resolves a list of document rules in order; the first failing rule's error
/// is reported.
pub fn resolve_document_rules(rules: Vec<DocumentRule>, registry: &CodecRegistry) -> (r: Result<Vec<DocumentRule>, ConfigError>)
    ensures
        r is Ok <==> forall|j: int| 0 <= j < rules@.len() ==> document_rule_ok(#[trigger] rules@[j], *registry),
        r matches Ok(out) ==> out@.len() == rules@.len() && forall|j: int|
            0 <= j < rules@.len() ==> document_rule_resolved(#[trigger] rules@[j], *registry, out@[j]),
        r matches Err(e) ==> exists|j: int|
            0 <= j < rules@.len() && !document_rule_ok(#[trigger] rules@[j], *registry) && (forall|l: int|
                0 <= l < j ==> document_rule_ok(#[trigger] rules@[l], *registry)) && document_rule_error(
                rules@[j],
                *registry,
                e,
            ),
{
    let ghost all = rules@;
    let mut rest = rules;
    let mut out: Vec<DocumentRule> = Vec::new();
    let n = rest.len();
    let mut i: usize = 0;
    while i < n
        invariant
            n == all.len(),
            i <= n,
            rest@ == all.skip(i as int),
            all == rules@,
            out@.len() == i,
            forall|j: int| 0 <= j < i ==> document_rule_ok(#[trigger] all[j], *registry),
            forall|j: int| 0 <= j < i ==> document_rule_resolved(#[trigger] all[j], *registry, out@[j]),
        decreases n - i,
    {
        let rule = rest.remove(0);
        proof {
            assert(rule == all[i as int]);
            assert(rest@ =~= all.skip(i + 1));
        }
        let resolved = resolve_document_rule(
            rule.preset.as_str(),
            rule.input_extensions,
            rule.subfolder,
            rule.output_name,
            rule.output_ext,
            rule.toc,
            rule.toc_depth,
            rule.css,
            rule.template,
            rule.standalone,
            rule.metadata,
            rule.pdf_engine,
            rule.options,
            registry,
        );
        match resolved {
            Ok(b) => {
                out.push(b);
            },
            Err(e) => {
                proof {
                    assert(!document_rule_ok(all[i as int], *registry));
                    assert(document_rule_error(all[i as int], *registry, e));
                    assert(exists|j: int|
                        0 <= j < all.len() && !document_rule_ok(#[trigger] all[j], *registry) && (forall|l: int|
                            0 <= l < j ==> document_rule_ok(#[trigger] all[l], *registry)) && document_rule_error(
                            all[j],
                            *registry,
                            e,
                        ));
                }
                return Err(e);
            },
        }
        i = i + 1;
    }
    Ok(out)
}

/// The custom rule `a` resolves against the registry.
pub open spec fn custom_rule_ok(a: CustomRule, reg: CodecRegistry) -> bool {
    custom_resolvable(a.preset@, a.command, reg)
}

/// `b` is the custom rule `a` resolved against the registry.
pub open spec fn custom_rule_resolved(a: CustomRule, reg: CodecRegistry, b: CustomRule) -> bool {
    custom_resolved(
        a.preset@,
        views(a.input_extensions@),
        opt_text(a.subfolder),
        opt_text(a.output_name),
        a.description,
        a.command,
        a.output_ext,
        reg.custom@[a.preset@],
        b,
    )
}

/// `e` is the error resolving the custom rule `a` reports.
pub open spec fn custom_rule_error(a: CustomRule, reg: CodecRegistry, e: ConfigError) -> bool {
    if reg.custom@.contains_key(a.preset@) {
        e matches ConfigError::CustomPresetNoCommand { name } && name@ == a.preset@
    } else {
        e matches ConfigError::PresetNotFound { kind, name } && kind == RuleKind::Custom
            && name@ == a.preset@
    }
}

/// Resolves a list of custom rules in order; the first failing rule's error
/// is reported.
pub fn resolve_custom_rules(rules: Vec<CustomRule>, registry: &CodecRegistry) -> (r: Result<Vec<CustomRule>, ConfigError>)
    ensures
        r is Ok <==> forall|j: int| 0 <= j < rules@.len() ==> custom_rule_ok(#[trigger] rules@[j], *registry),
        r matches Ok(out) ==> out@.len() == rules@.len() && forall|j: int|
            0 <= j < rules@.len() ==> custom_rule_resolved(#[trigger] rules@[j], *registry, out@[j]),
        r matches Err(e) ==> exists|j: int|
            0 <= j < rules@.len() && !custom_rule_ok(#[trigger] rules@[j], *registry) && (forall|l: int|
                0 <= l < j ==> custom_rule_ok(#[trigger] rules@[l], *registry)) && custom_rule_error(
                rules@[j],
                *registry,
                e,
            ),
{
    let ghost all = rules@;
    let mut rest = rules;
    let mut out: Vec<CustomRule> = Vec::new();
    let n = rest.len();
    let mut i: usize = 0;
    while i < n
        invariant
            n == all.len(),
            i <= n,
            rest@ == all.skip(i as int),
            all == rules@,
            out@.len() == i,
            forall|j: int| 0 <= j < i ==> custom_rule_ok(#[trigger] all[j], *registry),
            forall|j: int| 0 <= j < i ==> custom_rule_resolved(#[trigger] all[j], *registry, out@[j]),
        decreases n - i,
    {
        let rule = rest.remove(0);
        proof {
            assert(rule == all[i as int]);
            assert(rest@ =~= all.skip(i + 1));
        }
        let resolved = resolve_custom_rule(
            rule.preset.as_str(),
            rule.input_extensions,
            rule.subfolder,
            rule.output_name,
            rule.description,
            rule.command,
            rule.output_ext,
            registry,
        );
        match resolved {
            Ok(b) => {
                out.push(b);
            },
            Err(e) => {
                proof {
                    assert(!custom_rule_ok(all[i as int], *registry));
                    assert(custom_rule_error(all[i as int], *registry, e));
                    assert(exists|j: int|
                        0 <= j < all.len() && !custom_rule_ok(#[trigger] all[j], *registry) && (forall|l: int|
                            0 <= l < j ==> custom_rule_ok(#[trigger] all[l], *registry)) && custom_rule_error(
                            all[j],
                            *registry,
                            e,
                        ));
                }
                return Err(e);
            },
        }
        i = i + 1;
    }
    Ok(out)
}


/// Every rule of the watcher type resolves against the registry.
pub open spec fn type_ok(t: WatchType, reg: CodecRegistry) -> bool {
    match t {
        WatchType::Video { rules } => forall|j: int| 0 <= j < rules@.len() ==> video_rule_ok(#[trigger] rules@[j], reg),
        WatchType::Image { rules } => forall|j: int| 0 <= j < rules@.len() ==> image_rule_ok(#[trigger] rules@[j], reg),
        WatchType::Audio { rules } => forall|j: int| 0 <= j < rules@.len() ==> audio_rule_ok(#[trigger] rules@[j], reg),
        WatchType::Pdf { rules } => forall|j: int| 0 <= j < rules@.len() ==> pdf_rule_ok(#[trigger] rules@[j], reg),
        WatchType::Document { rules } => forall|j: int| 0 <= j < rules@.len() ==> document_rule_ok(#[trigger] rules@[j], reg),
        WatchType::Custom { rules } => forall|j: int| 0 <= j < rules@.len() ==> custom_rule_ok(#[trigger] rules@[j], reg),
    }
}

/// `b` is the watcher type `a` with each of its rules resolved, in order.
pub open spec fn type_resolved(a: WatchType, reg: CodecRegistry, b: WatchType) -> bool {
    match (a, b) {
        (WatchType::Video { rules: x }, WatchType::Video { rules: y }) => x@.len() == y@.len()
            && forall|j: int| 0 <= j < x@.len() ==> video_rule_resolved(#[trigger] x@[j], reg, y@[j]),
        (WatchType::Image { rules: x }, WatchType::Image { rules: y }) => x@.len() == y@.len()
            && forall|j: int| 0 <= j < x@.len() ==> image_rule_resolved(#[trigger] x@[j], reg, y@[j]),
        (WatchType::Audio { rules: x }, WatchType::Audio { rules: y }) => x@.len() == y@.len()
            && forall|j: int| 0 <= j < x@.len() ==> audio_rule_resolved(#[trigger] x@[j], reg, y@[j]),
        (WatchType::Pdf { rules: x }, WatchType::Pdf { rules: y }) => x@.len() == y@.len()
            && forall|j: int| 0 <= j < x@.len() ==> pdf_rule_resolved(#[trigger] x@[j], reg, y@[j]),
        (WatchType::Document { rules: x }, WatchType::Document { rules: y }) => x@.len() == y@.len()
            && forall|j: int| 0 <= j < x@.len() ==> document_rule_resolved(#[trigger] x@[j], reg, y@[j]),
        (WatchType::Custom { rules: x }, WatchType::Custom { rules: y }) => x@.len() == y@.len()
            && forall|j: int| 0 <= j < x@.len() ==> custom_rule_resolved(#[trigger] x@[j], reg, y@[j]),
        _ => false,
    }
}

/// `e` is the error of the first rule of `a` that does not resolve.
pub open spec fn type_error(a: WatchType, reg: CodecRegistry, e: ConfigError) -> bool {
    match a {
        WatchType::Video { rules } => exists|j: int|
            0 <= j < rules@.len() && !video_rule_ok(#[trigger] rules@[j], reg) && (forall|l: int|
                0 <= l < j ==> video_rule_ok(#[trigger] rules@[l], reg)) && video_rule_error(rules@[j], reg, e),
        WatchType::Image { rules } => exists|j: int|
            0 <= j < rules@.len() && !image_rule_ok(#[trigger] rules@[j], reg) && (forall|l: int|
                0 <= l < j ==> image_rule_ok(#[trigger] rules@[l], reg)) && image_rule_error(rules@[j], reg, e),
        WatchType::Audio { rules } => exists|j: int|
            0 <= j < rules@.len() && !audio_rule_ok(#[trigger] rules@[j], reg) && (forall|l: int|
                0 <= l < j ==> audio_rule_ok(#[trigger] rules@[l], reg)) && audio_rule_error(rules@[j], reg, e),
        WatchType::Pdf { rules } => exists|j: int|
            0 <= j < rules@.len() && !pdf_rule_ok(#[trigger] rules@[j], reg) && (forall|l: int|
                0 <= l < j ==> pdf_rule_ok(#[trigger] rules@[l], reg)) && pdf_rule_error(rules@[j], reg, e),
        WatchType::Document { rules } => exists|j: int|
            0 <= j < rules@.len() && !document_rule_ok(#[trigger] rules@[j], reg) && (forall|l: int|
                0 <= l < j ==> document_rule_ok(#[trigger] rules@[l], reg)) && document_rule_error(rules@[j], reg, e),
        WatchType::Custom { rules } => exists|j: int|
            0 <= j < rules@.len() && !custom_rule_ok(#[trigger] rules@[j], reg) && (forall|l: int|
                0 <= l < j ==> custom_rule_ok(#[trigger] rules@[l], reg)) && custom_rule_error(rules@[j], reg, e),
    }
}

/// Resolves every rule of one watcher type.
fn resolve_watch_type(t: WatchType, registry: &CodecRegistry) -> (r: Result<WatchType, ConfigError>)
    ensures
        r is Ok <==> type_ok(t, *registry),
        r matches Ok(b) ==> type_resolved(t, *registry, b),
        r matches Err(e) ==> type_error(t, *registry, e),
{
    match t {
        WatchType::Video { rules } => match resolve_video_rules(rules, registry) {
            Ok(out) => Ok(WatchType::Video { rules: out }),
            Err(e) => Err(e),
        },
        WatchType::Image { rules } => match resolve_image_rules(rules, registry) {
            Ok(out) => Ok(WatchType::Image { rules: out }),
            Err(e) => Err(e),
        },
        WatchType::Audio { rules } => match resolve_audio_rules(rules, registry) {
            Ok(out) => Ok(WatchType::Audio { rules: out }),
            Err(e) => Err(e),
        },
        WatchType::Pdf { rules } => match resolve_pdf_rules(rules, registry) {
            Ok(out) => Ok(WatchType::Pdf { rules: out }),
            Err(e) => Err(e),
        },
        WatchType::Document { rules } => match resolve_document_rules(rules, registry) {
            Ok(out) => Ok(WatchType::Document { rules: out }),
            Err(e) => Err(e),
        },
        WatchType::Custom { rules } => match resolve_custom_rules(rules, registry) {
            Ok(out) => Ok(WatchType::Custom { rules: out }),
            Err(e) => Err(e),
        },
    }
}

/// `b` is the watcher `a` with its rules resolved; names, folders and
/// subfolders are kept.
pub open spec fn watcher_resolved(a: WatchConfig, reg: CodecRegistry, b: WatchConfig) -> bool {
    &&& b.name == a.name
    &&& b.watch_folder == a.watch_folder
    &&& b.output_folder == a.output_folder
    &&& b.subfolders == a.subfolders
    &&& type_resolved(a.watch_type, reg, b.watch_type)
}

/// Merges the presets into the rules of every watcher, in order. The error
/// is that of the first rule, in the first watcher, that does not resolve.
pub fn resolve_watchers(watchers: Vec<WatchConfig>, registry: &CodecRegistry) -> (r: Result<Vec<WatchConfig>, ConfigError>)
    ensures
        r is Ok <==> forall|j: int| 0 <= j < watchers@.len() ==> type_ok(#[trigger] watchers@[j].watch_type, *registry),
        r matches Ok(out) ==> out@.len() == watchers@.len() && forall|j: int|
            0 <= j < watchers@.len() ==> watcher_resolved(#[trigger] watchers@[j], *registry, out@[j]),
        r matches Err(e) ==> exists|j: int|
            0 <= j < watchers@.len() && !type_ok(#[trigger] watchers@[j].watch_type, *registry) && (forall|l: int|
                0 <= l < j ==> type_ok(#[trigger] watchers@[l].watch_type, *registry)) && type_error(
                watchers@[j].watch_type,
                *registry,
                e,
            ),
{
    let ghost all = watchers@;
    let mut rest = watchers;
    let mut out: Vec<WatchConfig> = Vec::new();
    let n = rest.len();
    let mut i: usize = 0;
    while i < n
        invariant
            n == all.len(),
            i <= n,
            rest@ == all.skip(i as int),
            all == watchers@,
            out@.len() == i,
            forall|j: int| 0 <= j < i ==> type_ok(#[trigger] all[j].watch_type, *registry),
            forall|j: int| 0 <= j < i ==> watcher_resolved(#[trigger] all[j], *registry, out@[j]),
        decreases n - i,
    {
        let w = rest.remove(0);
        proof {
            assert(w == all[i as int]);
            assert(rest@ =~= all.skip(i + 1));
        }
        let WatchConfig { name, watch_folder, output_folder, subfolders, watch_type } = w;
        match resolve_watch_type(watch_type, registry) {
            Ok(t) => {
                out.push(WatchConfig { name, watch_folder, output_folder, subfolders, watch_type: t });
            },
            Err(e) => {
                proof {
                    assert(!type_ok(all[i as int].watch_type, *registry));
                    assert(exists|j: int|
                        0 <= j < all.len() && !type_ok(#[trigger] all[j].watch_type, *registry) && (forall|l: int|
                            0 <= l < j ==> type_ok(#[trigger] all[l].watch_type, *registry)) && type_error(
                            all[j].watch_type,
                            *registry,
                            e,
                        ));
                }
                return Err(e);
            },
        }
        i = i + 1;
    }
    Ok(out)
}

} // verus!
