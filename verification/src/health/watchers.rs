//! How the dashboard describes a watcher and its rules.
use vstd::prelude::*;
use crate::config::watch::{
    kind_label_of, AudioRule, CustomRule, DocumentRule, ImageRule, PdfMode, PdfRule, Subfolder, VideoRule,
    WatchConfig, WatchType,
};
use crate::text::{append, debug_list, debug_string_list, owned, views};

verus! {

/// A watcher as the dashboard lists it.
#[derive(Debug, Clone)]
pub struct WatcherInfo {
    pub name: String,
    pub watch_folder: String,
    pub output_folder: String,
    pub watch_type: String,
    pub video_rules: Vec<String>,
    pub audio_rules: Vec<String>,
    pub image_rules: Vec<String>,
    pub pdf_rules: Vec<String>,
    pub document_rules: Vec<String>,
    pub custom_rules: Vec<String>,
}

/// A setting, or `(preset)` where the rule leaves it to its preset.
pub open spec fn or_preset(o: Option<String>) -> Seq<char> {
    match o {
        Some(s) => s@,
        None => "(preset)"@,
    }
}

fn or_preset_text(o: &Option<String>) -> (r: &str)
    ensures
        r@ == or_preset(*o),
{
    match o {
        Some(s) => s.as_str(),
        None => "(preset)",
    }
}

/// The `Debug` rendering of a PDF mode name.
pub open spec fn mode_name(m: PdfMode) -> Seq<char> {
    match m {
        PdfMode::Compress => "Compress"@,
        PdfMode::PdfA => "PdfA"@,
        PdfMode::ExtractText => "ExtractText"@,
        PdfMode::ExtractImages => "ExtractImages"@,
        PdfMode::ImageToPdf => "ImageToPdf"@,
        PdfMode::PdfToImages => "PdfToImages"@,
        PdfMode::Merge => "Merge"@,
        PdfMode::Linearize => "Linearize"@,
        PdfMode::Encrypt => "Encrypt"@,
        PdfMode::Decrypt => "Decrypt"@,
        PdfMode::Analyze => "Analyze"@,
    }
}

/// The `Debug` rendering of an optional PDF mode: `Some(Mode)` or `None`.
pub open spec fn mode_debug(m: Option<PdfMode>) -> Seq<char> {
    match m {
        Some(x) => "Some("@ + mode_name(x) + ")"@,
        None => "None"@,
    }
}

fn mode_debug_text(m: Option<PdfMode>) -> (r: String)
    ensures
        r@ == mode_debug(m),
{
    match m {
        Some(x) => {
            let name = match x {
                PdfMode::Compress => "Compress",
                PdfMode::PdfA => "PdfA",
                PdfMode::ExtractText => "ExtractText",
                PdfMode::ExtractImages => "ExtractImages",
                PdfMode::ImageToPdf => "ImageToPdf",
                PdfMode::PdfToImages => "PdfToImages",
                PdfMode::Merge => "Merge",
                PdfMode::Linearize => "Linearize",
                PdfMode::Encrypt => "Encrypt",
                PdfMode::Decrypt => "Decrypt",
                PdfMode::Analyze => "Analyze",
            };
            let mut r = owned("Some(");
            append(&mut r, name);
            append(&mut r, ")");
            r
        },
        None => owned("None"),
    }
}

/// `{subfolder} ({codec}, {ext})`, or `{extensions:?} -> {ext} ({codec})`.
pub open spec fn video_line(r: VideoRule) -> Seq<char> {
    match r.subfolder {
        Some(f) => f@ + " ("@ + or_preset(r.codec) + ", "@ + or_preset(r.output_ext) + ")"@,
        None => debug_string_list(views(r.input_extensions@)) + " -> "@ + or_preset(r.output_ext) + " ("@
            + or_preset(r.codec) + ")"@,
    }
}

/// `{subfolder} ({ext})`, or `{extensions:?} -> {ext}`.
pub open spec fn image_line(r: ImageRule) -> Seq<char> {
    match r.subfolder {
        Some(f) => f@ + " ("@ + or_preset(r.output_ext) + ")"@,
        None => debug_string_list(views(r.input_extensions@)) + " -> "@ + or_preset(r.output_ext),
    }
}

/// `{subfolder} ({codec}, {ext})`, or `{extensions:?} -> {ext} ({codec})`.
pub open spec fn audio_line(r: AudioRule) -> Seq<char> {
    match r.subfolder {
        Some(f) => f@ + " ("@ + or_preset(r.audio_codec) + ", "@ + or_preset(r.output_ext) + ")"@,
        None => debug_string_list(views(r.input_extensions@)) + " -> "@ + or_preset(r.output_ext) + " ("@
            + or_preset(r.audio_codec) + ")"@,
    }
}

/// `{subfolder} ({mode:?})`, or `{extensions:?} -> {ext} ({mode:?})`.
pub open spec fn pdf_line(r: PdfRule) -> Seq<char> {
    match r.subfolder {
        Some(f) => f@ + " ("@ + mode_debug(r.mode) + ")"@,
        None => debug_string_list(views(r.input_extensions@)) + " -> "@ + or_preset(r.output_ext) + " ("@
            + mode_debug(r.mode) + ")"@,
    }
}

/// `{subfolder} -> {ext}`, or `{extensions:?} -> {ext}`.
pub open spec fn document_line(r: DocumentRule) -> Seq<char> {
    match r.subfolder {
        Some(f) => f@ + " -> "@ + or_preset(r.output_ext),
        None => debug_string_list(views(r.input_extensions@)) + " -> "@ + or_preset(r.output_ext),
    }
}

/// The description of a custom rule, else its command, else `(preset)`.
pub open spec fn custom_desc(r: CustomRule) -> Seq<char> {
    match r.description {
        Some(d) => d@,
        None => or_preset(r.command),
    }
}

/// `{subfolder}: {desc}`, or `{extensions:?}: {desc}`.
pub open spec fn custom_line(r: CustomRule) -> Seq<char> {
    match r.subfolder {
        Some(f) => f@ + ": "@ + custom_desc(r),
        None => debug_string_list(views(r.input_extensions@)) + ": "@ + custom_desc(r),
    }
}

/// `->{name}: {description}` for a declared subfolder.
pub open spec fn subfolder_line(s: Subfolder) -> Seq<char> {
    "->"@ + s.name@ + ": "@ + match s.description {
        Some(d) => d@,
        None => Seq::empty(),
    }
}

/// The rule lines of a watcher type, then one line per declared subfolder.
pub open spec fn rule_lines(t: WatchType, sfs: Seq<Subfolder>) -> Seq<Seq<char>> {
    let extra = sfs.map_values(|s: Subfolder| subfolder_line(s));
    match t {
        WatchType::Video { rules } => rules@.map_values(|r: VideoRule| video_line(r)) + extra,
        WatchType::Image { rules } => rules@.map_values(|r: ImageRule| image_line(r)) + extra,
        WatchType::Audio { rules } => rules@.map_values(|r: AudioRule| audio_line(r)) + extra,
        WatchType::Pdf { rules } => rules@.map_values(|r: PdfRule| pdf_line(r)) + extra,
        WatchType::Document { rules } => rules@.map_values(|r: DocumentRule| document_line(r)) + extra,
        WatchType::Custom { rules } => rules@.map_values(|r: CustomRule| custom_line(r)) + extra,
    }
}

/// `info` describes the watcher `c`: its names and folders, its type, and
/// the lines of its rules in the list of its type, the others empty.
pub open spec fn info_of(c: WatchConfig, info: WatcherInfo) -> bool {
    let lines = rule_lines(c.watch_type, c.subfolders@);
    &&& info.name == c.name
    &&& info.watch_folder == c.watch_folder
    &&& info.output_folder == c.output_folder
    &&& info.watch_type@ == kind_label_of(c.watch_type)
    &&& views(info.video_rules@) == if c.watch_type is Video { lines } else { Seq::empty() }
    &&& views(info.image_rules@) == if c.watch_type is Image { lines } else { Seq::empty() }
    &&& views(info.audio_rules@) == if c.watch_type is Audio { lines } else { Seq::empty() }
    &&& views(info.pdf_rules@) == if c.watch_type is Pdf { lines } else { Seq::empty() }
    &&& views(info.document_rules@) == if c.watch_type is Document { lines } else { Seq::empty() }
    &&& views(info.custom_rules@) == if c.watch_type is Custom { lines } else { Seq::empty() }
}

fn video_text(r: &VideoRule) -> (s: String)
    ensures
        s@ == video_line(*r),
{
    let codec = or_preset_text(&r.codec);
    let ext = or_preset_text(&r.output_ext);
    match &r.subfolder {
        Some(f) => {
            let mut s = owned(f.as_str());
            append(&mut s, " (");
            append(&mut s, codec);
            append(&mut s, ", ");
            append(&mut s, ext);
            append(&mut s, ")");
            s
        },
        None => {
            let mut s = debug_list(&r.input_extensions);
            append(&mut s, " -> ");
            append(&mut s, ext);
            append(&mut s, " (");
            append(&mut s, codec);
            append(&mut s, ")");
            s
        },
    }
}

fn image_text(r: &ImageRule) -> (s: String)
    ensures
        s@ == image_line(*r),
{
    let ext = or_preset_text(&r.output_ext);
    match &r.subfolder {
        Some(f) => {
            let mut s = owned(f.as_str());
            append(&mut s, " (");
            append(&mut s, ext);
            append(&mut s, ")");
            s
        },
        None => {
            let mut s = debug_list(&r.input_extensions);
            append(&mut s, " -> ");
            append(&mut s, ext);
            s
        },
    }
}

fn audio_text(r: &AudioRule) -> (s: String)
    ensures
        s@ == audio_line(*r),
{
    let codec = or_preset_text(&r.audio_codec);
    let ext = or_preset_text(&r.output_ext);
    match &r.subfolder {
        Some(f) => {
            let mut s = owned(f.as_str());
            append(&mut s, " (");
            append(&mut s, codec);
            append(&mut s, ", ");
            append(&mut s, ext);
            append(&mut s, ")");
            s
        },
        None => {
            let mut s = debug_list(&r.input_extensions);
            append(&mut s, " -> ");
            append(&mut s, ext);
            append(&mut s, " (");
            append(&mut s, codec);
            append(&mut s, ")");
            s
        },
    }
}

fn pdf_text(r: &PdfRule) -> (s: String)
    ensures
        s@ == pdf_line(*r),
{
    let mode = mode_debug_text(r.mode);
    match &r.subfolder {
        Some(f) => {
            let mut s = owned(f.as_str());
            append(&mut s, " (");
            append(&mut s, mode.as_str());
            append(&mut s, ")");
            s
        },
        None => {
            let ext = or_preset_text(&r.output_ext);
            let mut s = debug_list(&r.input_extensions);
            append(&mut s, " -> ");
            append(&mut s, ext);
            append(&mut s, " (");
            append(&mut s, mode.as_str());
            append(&mut s, ")");
            s
        },
    }
}

fn document_text(r: &DocumentRule) -> (s: String)
    ensures
        s@ == document_line(*r),
{
    let ext = or_preset_text(&r.output_ext);
    let mut s = match &r.subfolder {
        Some(f) => owned(f.as_str()),
        None => debug_list(&r.input_extensions),
    };
    append(&mut s, " -> ");
    append(&mut s, ext);
    s
}

fn custom_text(r: &CustomRule) -> (s: String)
    ensures
        s@ == custom_line(*r),
{
    let desc = match &r.description {
        Some(d) => d.as_str(),
        None => or_preset_text(&r.command),
    };
    let mut s = match &r.subfolder {
        Some(f) => owned(f.as_str()),
        None => debug_list(&r.input_extensions),
    };
    append(&mut s, ": ");
    append(&mut s, desc);
    s
}

fn subfolder_text(sf: &Subfolder) -> (s: String)
    ensures
        s@ == subfolder_line(*sf),
{
    let mut s = owned("->");
    append(&mut s, sf.name.as_str());
    append(&mut s, ": ");
    match &sf.description {
        Some(d) => {
            append(&mut s, d.as_str());
        },
        None => {
            assert(s@ =~= s@ + Seq::<char>::empty());
        },
    }
    s
}

/// The dashboard lines of a watcher's rules.
fn rule_texts(t: &WatchType) -> (r: Vec<String>)
    ensures
        views(r@) == rule_lines(*t, Seq::<Subfolder>::empty()),
{
    let mut out: Vec<String> = Vec::new();
    let mut i: usize = 0;
    match t {
        WatchType::Video { rules } => {
            while i < rules.len()
                invariant
                    i <= rules@.len(),
                    views(out@) == rules@.take(i as int).map_values(|r: VideoRule| video_line(r)),
                decreases rules@.len() - i,
            {
                let ghost before = out@;
                out.push(video_text(&rules[i]));
                proof {
                    assert(views(out@) =~= views(before).push(video_line(rules@[i as int])));
                    assert(rules@.take(i + 1) =~= rules@.take(i as int).push(rules@[i as int]));
                    assert(views(out@) =~= rules@.take(i + 1).map_values(|r: VideoRule| video_line(r)));
                }
                i = i + 1;
            }
            assert(rules@.take(rules@.len() as int) =~= rules@);
        },
        WatchType::Image { rules } => {
            while i < rules.len()
                invariant
                    i <= rules@.len(),
                    views(out@) == rules@.take(i as int).map_values(|r: ImageRule| image_line(r)),
                decreases rules@.len() - i,
            {
                let ghost before = out@;
                out.push(image_text(&rules[i]));
                proof {
                    assert(views(out@) =~= views(before).push(image_line(rules@[i as int])));
                    assert(rules@.take(i + 1) =~= rules@.take(i as int).push(rules@[i as int]));
                    assert(views(out@) =~= rules@.take(i + 1).map_values(|r: ImageRule| image_line(r)));
                }
                i = i + 1;
            }
            assert(rules@.take(rules@.len() as int) =~= rules@);
        },
        WatchType::Audio { rules } => {
            while i < rules.len()
                invariant
                    i <= rules@.len(),
                    views(out@) == rules@.take(i as int).map_values(|r: AudioRule| audio_line(r)),
                decreases rules@.len() - i,
            {
                let ghost before = out@;
                out.push(audio_text(&rules[i]));
                proof {
                    assert(views(out@) =~= views(before).push(audio_line(rules@[i as int])));
                    assert(rules@.take(i + 1) =~= rules@.take(i as int).push(rules@[i as int]));
                    assert(views(out@) =~= rules@.take(i + 1).map_values(|r: AudioRule| audio_line(r)));
                }
                i = i + 1;
            }
            assert(rules@.take(rules@.len() as int) =~= rules@);
        },
        WatchType::Pdf { rules } => {
            while i < rules.len()
                invariant
                    i <= rules@.len(),
                    views(out@) == rules@.take(i as int).map_values(|r: PdfRule| pdf_line(r)),
                decreases rules@.len() - i,
            {
                let ghost before = out@;
                out.push(pdf_text(&rules[i]));
                proof {
                    assert(views(out@) =~= views(before).push(pdf_line(rules@[i as int])));
                    assert(rules@.take(i + 1) =~= rules@.take(i as int).push(rules@[i as int]));
                    assert(views(out@) =~= rules@.take(i + 1).map_values(|r: PdfRule| pdf_line(r)));
                }
                i = i + 1;
            }
            assert(rules@.take(rules@.len() as int) =~= rules@);
        },
        WatchType::Document { rules } => {
            while i < rules.len()
                invariant
                    i <= rules@.len(),
                    views(out@) == rules@.take(i as int).map_values(|r: DocumentRule| document_line(r)),
                decreases rules@.len() - i,
            {
                let ghost before = out@;
                out.push(document_text(&rules[i]));
                proof {
                    assert(views(out@) =~= views(before).push(document_line(rules@[i as int])));
                    assert(rules@.take(i + 1) =~= rules@.take(i as int).push(rules@[i as int]));
                    assert(views(out@) =~= rules@.take(i + 1).map_values(|r: DocumentRule| document_line(r)));
                }
                i = i + 1;
            }
            assert(rules@.take(rules@.len() as int) =~= rules@);
        },
        WatchType::Custom { rules } => {
            while i < rules.len()
                invariant
                    i <= rules@.len(),
                    views(out@) == rules@.take(i as int).map_values(|r: CustomRule| custom_line(r)),
                decreases rules@.len() - i,
            {
                let ghost before = out@;
                out.push(custom_text(&rules[i]));
                proof {
                    assert(views(out@) =~= views(before).push(custom_line(rules@[i as int])));
                    assert(rules@.take(i + 1) =~= rules@.take(i as int).push(rules@[i as int]));
                    assert(views(out@) =~= rules@.take(i + 1).map_values(|r: CustomRule| custom_line(r)));
                }
                i = i + 1;
            }
            assert(rules@.take(rules@.len() as int) =~= rules@);
        },
    }
    proof {
        let e = Seq::<Subfolder>::empty().map_values(|s: Subfolder| subfolder_line(s));
        assert(e =~= Seq::<Seq<char>>::empty());
        assert(views(out@) + e =~= views(out@));
    }
    out
}

/// The dashboard description of a watcher.
pub fn watcher_info_from_config(config: &WatchConfig) -> (r: WatcherInfo)
    ensures
        info_of(*config, r),
{
    let mut lines = rule_texts(&config.watch_type);
    let ghost base = views(lines@);
    let sfs = &config.subfolders;
    let mut i: usize = 0;
    while i < sfs.len()
        invariant
            i <= sfs@.len(),
            views(lines@) == base + sfs@.take(i as int).map_values(|s: Subfolder| subfolder_line(s)),
        decreases sfs@.len() - i,
    {
        let ghost before = lines@;
        lines.push(subfolder_text(&sfs[i]));
        proof {
            assert(views(lines@) =~= views(before).push(subfolder_line(sfs@[i as int])));
            assert(sfs@.take(i + 1) =~= sfs@.take(i as int).push(sfs@[i as int]));
            assert(views(lines@) =~= base + sfs@.take(i + 1).map_values(|s: Subfolder| subfolder_line(s)));
        }
        i = i + 1;
    }
    proof {
        assert(sfs@.take(sfs@.len() as int) =~= sfs@);
        let extra = config.subfolders@.map_values(|s: Subfolder| subfolder_line(s));
        assert(views(lines@) =~= rule_lines(config.watch_type, config.subfolders@)) by {
            match config.watch_type {
                WatchType::Video { rules } => {},
                WatchType::Image { rules } => {},
                WatchType::Audio { rules } => {},
                WatchType::Pdf { rules } => {},
                WatchType::Document { rules } => {},
                WatchType::Custom { rules } => {},
            }
        }
    }
    let (v, a, im, p, d, c) = match &config.watch_type {
        WatchType::Video { .. } => (lines, Vec::new(), Vec::new(), Vec::new(), Vec::new(), Vec::new()),
        WatchType::Audio { .. } => (Vec::new(), lines, Vec::new(), Vec::new(), Vec::new(), Vec::new()),
        WatchType::Image { .. } => (Vec::new(), Vec::new(), lines, Vec::new(), Vec::new(), Vec::new()),
        WatchType::Pdf { .. } => (Vec::new(), Vec::new(), Vec::new(), lines, Vec::new(), Vec::new()),
        WatchType::Document { .. } => (Vec::new(), Vec::new(), Vec::new(), Vec::new(), lines, Vec::new()),
        WatchType::Custom { .. } => (Vec::new(), Vec::new(), Vec::new(), Vec::new(), Vec::new(), lines),
    };
    let r = WatcherInfo {
        name: config.name.clone(),
        watch_folder: config.watch_folder.clone(),
        output_folder: config.output_folder.clone(),
        watch_type: owned(config.watch_type.type_label()),
        video_rules: v,
        audio_rules: a,
        image_rules: im,
        pdf_rules: p,
        document_rules: d,
        custom_rules: c,
    };
    proof {
        assert(views(r.video_rules@) =~= if config.watch_type is Video { views(r.video_rules@) } else { Seq::empty() });
        assert(views(r.image_rules@) =~= if config.watch_type is Image { views(r.image_rules@) } else { Seq::empty() });
        assert(views(r.audio_rules@) =~= if config.watch_type is Audio { views(r.audio_rules@) } else { Seq::empty() });
        assert(views(r.pdf_rules@) =~= if config.watch_type is Pdf { views(r.pdf_rules@) } else { Seq::empty() });
        assert(views(r.document_rules@) =~= if config.watch_type is Document { views(r.document_rules@) } else { Seq::empty() });
        assert(views(r.custom_rules@) =~= if config.watch_type is Custom { views(r.custom_rules@) } else { Seq::empty() });
    }
    r
}

} // verus!
