//! Configuration model: global settings, watchers and their rules, codec
//! presets, per-watcher overrides, and the checks a configuration must pass.
use vstd::prelude::*;
use crate::config::error::{kind_word, ConfigError, RuleKind};
use crate::config::global::{
    disk_space_is_default, healthcheck_is_default, worker_config_is_default, GlobalConfig, HistoryConfig,
    InputFileAction, LogConfig,
};
use crate::config::codec_registry::preset_paths_are_default;
use crate::config::watch::{Subfolder, VideoRule, WatchConfig, WatchType};
use crate::paths::{has_root, is_rooted, join, join_path, parent, path_parent};
use crate::text::{
    append, contains_char, contains_dotdot, decimal, has_dotdot, owned, push_str, trim_end_char, trim_end_matches_char,
    views,
};

pub mod codec_registry;
pub mod embedded;
pub mod error;
pub mod global;
pub mod watch;

verus! {

/// The message for a path that must be absolute and is not, or none.
pub open spec fn absolute_problem(path: Seq<char>, label: Seq<char>) -> Option<Seq<char>> {
    if has_root(path) {
        None
    } else {
        Some(label + ": must be an absolute path, got '"@ + path
            + "'. Example: /app/inputs/default/"@)
    }
}

/// Refuses a path that is not absolute, naming it by `label`.
pub fn validate_absolute_path(path: &str, label: &str) -> (r: Result<(), ConfigError>)
    ensures
        r is Ok <==> absolute_problem(path@, label@) is None,
        r matches Err(e) ==> Some(e.spec_message()) == absolute_problem(path@, label@),
        r matches Err(e) ==> e is NotAbsolute,
{
    if is_rooted(path) {
        Ok(())
    } else {
        Err(ConfigError::NotAbsolute { label: owned(label), path: owned(path) })
    }
}

/// The number of input extensions of each rule of a watcher type.
pub open spec fn ext_counts(t: WatchType) -> Seq<nat> {
    match t {
        WatchType::Video { rules } => rules@.map_values(|r: crate::config::watch::VideoRule| r.input_extensions@.len()),
        WatchType::Image { rules } => rules@.map_values(|r: crate::config::watch::ImageRule| r.input_extensions@.len()),
        WatchType::Audio { rules } => rules@.map_values(|r: crate::config::watch::AudioRule| r.input_extensions@.len()),
        WatchType::Pdf { rules } => rules@.map_values(|r: crate::config::watch::PdfRule| r.input_extensions@.len()),
        WatchType::Document { rules } => rules@.map_values(|r: crate::config::watch::DocumentRule| r.input_extensions@.len()),
        WatchType::Custom { rules } => rules@.map_values(|r: crate::config::watch::CustomRule| r.input_extensions@.len()),
    }
}

/// The rule kind of a watcher type.
pub open spec fn rule_kind_of(t: WatchType) -> RuleKind {
    match t {
        WatchType::Video { .. } => RuleKind::Video,
        WatchType::Image { .. } => RuleKind::Image,
        WatchType::Audio { .. } => RuleKind::Audio,
        WatchType::Pdf { .. } => RuleKind::Pdf,
        WatchType::Document { .. } => RuleKind::Document,
        WatchType::Custom { .. } => RuleKind::Custom,
    }
}

/// Rule `j` is the first rule with no input extensions.
pub open spec fn first_empty_at(counts: Seq<nat>, j: int) -> bool {
    &&& 0 <= j < counts.len()
    &&& counts[j] == 0
    &&& forall|l: int| 0 <= l < j ==> #[trigger] counts[l] > 0
}

/// The message for rule `j` of watcher `name` having no input extensions.
pub open spec fn empty_rule_message(name: Seq<char>, kind: RuleKind, j: int) -> Seq<char> {
    "Watcher '"@ + name + "', "@ + kind_word(kind) + " rule "@ + decimal(j as nat)
        + ": input_extensions must not be empty"@
}

/// An optional string by its view.
pub open spec fn opt_view(o: Option<String>) -> Option<Seq<char>> {
    match o {
        Some(t) => Some(t@),
        None => None,
    }
}

/// The subfolder of each rule of a watcher type.
pub open spec fn rule_subfolders(t: WatchType) -> Seq<Option<Seq<char>>> {
    match t {
        WatchType::Video { rules } => rules@.map_values(|r: crate::config::watch::VideoRule| opt_view(r.subfolder)),
        WatchType::Image { rules } => rules@.map_values(|r: crate::config::watch::ImageRule| opt_view(r.subfolder)),
        WatchType::Audio { rules } => rules@.map_values(|r: crate::config::watch::AudioRule| opt_view(r.subfolder)),
        WatchType::Pdf { rules } => rules@.map_values(|r: crate::config::watch::PdfRule| opt_view(r.subfolder)),
        WatchType::Document { rules } => rules@.map_values(|r: crate::config::watch::DocumentRule| opt_view(r.subfolder)),
        WatchType::Custom { rules } => rules@.map_values(|r: crate::config::watch::CustomRule| opt_view(r.subfolder)),
    }
}

/// A subfolder name that could leave the watch folder: it holds a `/`, a
/// `\\` or two consecutive dots.
pub open spec fn unsafe_subfolder(name: Seq<char>) -> bool {
    name.contains('/') || name.contains('\\') || has_dotdot(name)
}

/// Rule `l` names an unsafe subfolder.
pub open spec fn unsafe_at(subs: Seq<Option<Seq<char>>>, l: int) -> bool {
    subs[l] matches Some(name) && unsafe_subfolder(name)
}

/// Rule `j` is the first rule naming an unsafe subfolder.
pub open spec fn first_unsafe_at(subs: Seq<Option<Seq<char>>>, j: int) -> bool {
    &&& 0 <= j < subs.len()
    &&& unsafe_at(subs, j)
    &&& forall|l: int| 0 <= l < j ==> !#[trigger] unsafe_at(subs, l)
}

/// The message for rule `j` of watcher `name` naming the unsafe subfolder `sub`.
pub open spec fn unsafe_subfolder_message(name: Seq<char>, kind: RuleKind, j: int, sub: Seq<char>) -> Seq<char> {
    "Watcher '"@ + name + "', "@ + kind_word(kind) + " rule "@ + decimal(j as nat)
        + ": subfolder '"@ + sub + "' must not contain '/', '\\' or '..'"@
}

/// The first problem of one watcher, in the order they are checked, or none.
pub open spec fn watcher_problem(w: WatchConfig) -> Option<Seq<char>> {
    let counts = ext_counts(w.watch_type);
    if w.watch_folder@.len() == 0 {
        Some("Watcher '"@ + w.name@ + "': watch_folder must be an absolute path, got empty string"@)
    } else if !has_root(w.watch_folder@) {
        absolute_problem(w.watch_folder@, "watcher '"@ + w.name@ + "'."@ + "watch_folder"@)
    } else if w.output_folder@.len() == 0 {
        Some("Watcher '"@ + w.name@ + "': output_folder must be an absolute path, got empty string"@)
    } else if !has_root(w.output_folder@) {
        absolute_problem(w.output_folder@, "watcher '"@ + w.name@ + "'."@ + "output_folder"@)
    } else if exists|j: int| first_empty_at(counts, j) {
        Some(empty_rule_message(w.name@, rule_kind_of(w.watch_type), choose|j: int| first_empty_at(counts, j)))
    } else if exists|j: int| first_unsafe_at(rule_subfolders(w.watch_type), j) {
        let subs = rule_subfolders(w.watch_type);
        let j = choose|j: int| first_unsafe_at(subs, j);
        Some(unsafe_subfolder_message(w.name@, rule_kind_of(w.watch_type), j, subs[j]->0))
    } else {
        None
    }
}

/// The message for a scan interval `field` that is zero.
pub open spec fn zero_interval_message(field: Seq<char>) -> Seq<char> {
    field + " must be greater than 0"@
}

/// The first problem of the global settings, or none: the error log and
/// history paths must be absolute, and the file check, configuration
/// refresh and disk check intervals non-zero.
pub open spec fn global_problem(g: GlobalConfig) -> Option<Seq<char>> {
    if !has_root(g.log.errors_file@) {
        absolute_problem(g.log.errors_file@, "log.errors_file"@)
    } else if !has_root(g.history.file@) {
        absolute_problem(g.history.file@, "history.file"@)
    } else if g.file_check_interval_ms == 0 {
        Some(zero_interval_message("file_check_interval"@))
    } else if g.config_refresh_interval_s == 0 {
        Some(zero_interval_message("refresh_interval"@))
    } else if g.disk_space.check_interval_s == 0 {
        Some(zero_interval_message("disk_space.check_interval"@))
    } else {
        None
    }
}

/// Watcher `j` is the first watcher with a problem.
pub open spec fn first_bad_watcher(ws: Seq<WatchConfig>, j: int) -> bool {
    &&& 0 <= j < ws.len()
    &&& watcher_problem(ws[j]) is Some
    &&& forall|l: int| 0 <= l < j ==> #[trigger] watcher_problem(ws[l]) is None
}

proof fn lemma_first_empty_unique(counts: Seq<nat>, j: int)
    requires
        first_empty_at(counts, j),
    ensures
        (choose|k: int| first_empty_at(counts, k)) == j,
{
    let k = choose|k: int| first_empty_at(counts, k);
    assert(first_empty_at(counts, k));
    if k < j {
        assert(counts[k] > 0);
    } else if j < k {
        assert(counts[j] > 0);
    }
}

/// The index of the first rule of `t` with no input extensions.
fn first_empty_rule(t: &WatchType) -> (r: Option<usize>)
    ensures
        r matches Some(j) ==> first_empty_at(ext_counts(*t), j as int),
        r is None ==> forall|l: int| 0 <= l < ext_counts(*t).len() ==> #[trigger] ext_counts(*t)[l] > 0,
{
    let ghost counts = ext_counts(*t);
    let mut i: usize = 0;
    match t {
        WatchType::Video { rules } => {
            while i < rules.len()
                invariant
                    i <= rules@.len(),
                    counts == ext_counts(*t),
                    counts.len() == rules@.len(),
                    forall|l: int| 0 <= l < rules@.len() ==> #[trigger] counts[l] == rules@[l].input_extensions@.len(),
                    forall|l: int| 0 <= l < i ==> #[trigger] counts[l] > 0,
                decreases rules@.len() - i,
            {
                if rules[i].input_extensions.len() == 0 {
                    return Some(i);
                }
                i = i + 1;
            }
        },
        WatchType::Image { rules } => {
            while i < rules.len()
                invariant
                    i <= rules@.len(),
                    counts == ext_counts(*t),
                    counts.len() == rules@.len(),
                    forall|l: int| 0 <= l < rules@.len() ==> #[trigger] counts[l] == rules@[l].input_extensions@.len(),
                    forall|l: int| 0 <= l < i ==> #[trigger] counts[l] > 0,
                decreases rules@.len() - i,
            {
                if rules[i].input_extensions.len() == 0 {
                    return Some(i);
                }
                i = i + 1;
            }
        },
        WatchType::Audio { rules } => {
            while i < rules.len()
                invariant
                    i <= rules@.len(),
                    counts == ext_counts(*t),
                    counts.len() == rules@.len(),
                    forall|l: int| 0 <= l < rules@.len() ==> #[trigger] counts[l] == rules@[l].input_extensions@.len(),
                    forall|l: int| 0 <= l < i ==> #[trigger] counts[l] > 0,
                decreases rules@.len() - i,
            {
                if rules[i].input_extensions.len() == 0 {
                    return Some(i);
                }
                i = i + 1;
            }
        },
        WatchType::Pdf { rules } => {
            while i < rules.len()
                invariant
                    i <= rules@.len(),
                    counts == ext_counts(*t),
                    counts.len() == rules@.len(),
                    forall|l: int| 0 <= l < rules@.len() ==> #[trigger] counts[l] == rules@[l].input_extensions@.len(),
                    forall|l: int| 0 <= l < i ==> #[trigger] counts[l] > 0,
                decreases rules@.len() - i,
            {
                if rules[i].input_extensions.len() == 0 {
                    return Some(i);
                }
                i = i + 1;
            }
        },
        WatchType::Document { rules } => {
            while i < rules.len()
                invariant
                    i <= rules@.len(),
                    counts == ext_counts(*t),
                    counts.len() == rules@.len(),
                    forall|l: int| 0 <= l < rules@.len() ==> #[trigger] counts[l] == rules@[l].input_extensions@.len(),
                    forall|l: int| 0 <= l < i ==> #[trigger] counts[l] > 0,
                decreases rules@.len() - i,
            {
                if rules[i].input_extensions.len() == 0 {
                    return Some(i);
                }
                i = i + 1;
            }
        },
        WatchType::Custom { rules } => {
            while i < rules.len()
                invariant
                    i <= rules@.len(),
                    counts == ext_counts(*t),
                    counts.len() == rules@.len(),
                    forall|l: int| 0 <= l < rules@.len() ==> #[trigger] counts[l] == rules@[l].input_extensions@.len(),
                    forall|l: int| 0 <= l < i ==> #[trigger] counts[l] > 0,
                decreases rules@.len() - i,
            {
                if rules[i].input_extensions.len() == 0 {
                    return Some(i);
                }
                i = i + 1;
            }
        },
    }
    None
}

proof fn lemma_first_unsafe_unique(subs: Seq<Option<Seq<char>>>, j: int)
    requires
        first_unsafe_at(subs, j),
    ensures
        (choose|k: int| first_unsafe_at(subs, k)) == j,
{
    let k = choose|k: int| first_unsafe_at(subs, k);
    assert(first_unsafe_at(subs, k));
    if k < j {
        assert(!unsafe_at(subs, k));
    } else if j < k {
        assert(!unsafe_at(subs, j));
    }
}

/// Whether a subfolder name holds a `/`, a `\\` or two consecutive dots.
pub fn is_unsafe_subfolder(name: &str) -> (r: bool)
    ensures
        r == unsafe_subfolder(name@),
{
    contains_char(name, '/') || contains_char(name, '\\') || contains_dotdot(name)
}

/// The index and name of the first rule of `t` whose subfolder is unsafe.
fn first_unsafe_rule(t: &WatchType) -> (r: Option<(usize, String)>)
    ensures
        r matches Some((j, name)) ==> first_unsafe_at(rule_subfolders(*t), j as int)
            && rule_subfolders(*t)[j as int] == Some(name@),
        r is None ==> forall|l: int| 0 <= l < rule_subfolders(*t).len() ==> !#[trigger] unsafe_at(rule_subfolders(*t), l),
{
    let ghost subs = rule_subfolders(*t);
    let mut i: usize = 0;
    match t {
        WatchType::Video { rules } => {
            while i < rules.len()
                invariant
                    i <= rules@.len(),
                    subs == rule_subfolders(*t),
                    subs.len() == rules@.len(),
                    forall|l: int| 0 <= l < rules@.len() ==> #[trigger] subs[l] == opt_view(rules@[l].subfolder),
                    forall|l: int| 0 <= l < i ==> !#[trigger] unsafe_at(subs, l),
                decreases rules@.len() - i,
            {
                if let Some(name) = &rules[i].subfolder {
                    if is_unsafe_subfolder(name.as_str()) {
                        return Some((i, name.clone()));
                    }
                }
                i = i + 1;
            }
        },
        WatchType::Image { rules } => {
            while i < rules.len()
                invariant
                    i <= rules@.len(),
                    subs == rule_subfolders(*t),
                    subs.len() == rules@.len(),
                    forall|l: int| 0 <= l < rules@.len() ==> #[trigger] subs[l] == opt_view(rules@[l].subfolder),
                    forall|l: int| 0 <= l < i ==> !#[trigger] unsafe_at(subs, l),
                decreases rules@.len() - i,
            {
                if let Some(name) = &rules[i].subfolder {
                    if is_unsafe_subfolder(name.as_str()) {
                        return Some((i, name.clone()));
                    }
                }
                i = i + 1;
            }
        },
        WatchType::Audio { rules } => {
            while i < rules.len()
                invariant
                    i <= rules@.len(),
                    subs == rule_subfolders(*t),
                    subs.len() == rules@.len(),
                    forall|l: int| 0 <= l < rules@.len() ==> #[trigger] subs[l] == opt_view(rules@[l].subfolder),
                    forall|l: int| 0 <= l < i ==> !#[trigger] unsafe_at(subs, l),
                decreases rules@.len() - i,
            {
                if let Some(name) = &rules[i].subfolder {
                    if is_unsafe_subfolder(name.as_str()) {
                        return Some((i, name.clone()));
                    }
                }
                i = i + 1;
            }
        },
        WatchType::Pdf { rules } => {
            while i < rules.len()
                invariant
                    i <= rules@.len(),
                    subs == rule_subfolders(*t),
                    subs.len() == rules@.len(),
                    forall|l: int| 0 <= l < rules@.len() ==> #[trigger] subs[l] == opt_view(rules@[l].subfolder),
                    forall|l: int| 0 <= l < i ==> !#[trigger] unsafe_at(subs, l),
                decreases rules@.len() - i,
            {
                if let Some(name) = &rules[i].subfolder {
                    if is_unsafe_subfolder(name.as_str()) {
                        return Some((i, name.clone()));
                    }
                }
                i = i + 1;
            }
        },
        WatchType::Document { rules } => {
            while i < rules.len()
                invariant
                    i <= rules@.len(),
                    subs == rule_subfolders(*t),
                    subs.len() == rules@.len(),
                    forall|l: int| 0 <= l < rules@.len() ==> #[trigger] subs[l] == opt_view(rules@[l].subfolder),
                    forall|l: int| 0 <= l < i ==> !#[trigger] unsafe_at(subs, l),
                decreases rules@.len() - i,
            {
                if let Some(name) = &rules[i].subfolder {
                    if is_unsafe_subfolder(name.as_str()) {
                        return Some((i, name.clone()));
                    }
                }
                i = i + 1;
            }
        },
        WatchType::Custom { rules } => {
            while i < rules.len()
                invariant
                    i <= rules@.len(),
                    subs == rule_subfolders(*t),
                    subs.len() == rules@.len(),
                    forall|l: int| 0 <= l < rules@.len() ==> #[trigger] subs[l] == opt_view(rules@[l].subfolder),
                    forall|l: int| 0 <= l < i ==> !#[trigger] unsafe_at(subs, l),
                decreases rules@.len() - i,
            {
                if let Some(name) = &rules[i].subfolder {
                    if is_unsafe_subfolder(name.as_str()) {
                        return Some((i, name.clone()));
                    }
                }
                i = i + 1;
            }
        },
    }
    None
}

/// The label of a watcher's folder: `watcher '{name}'.{field}`.
fn folder_label(name: &str, field: &str) -> (r: String)
    ensures
        r@ == "watcher '"@ + name@ + "'."@ + field@,
{
    let mut m = owned("watcher '");
    append(&mut m, name);
    append(&mut m, "'.");
    append(&mut m, field);
    m
}

/// Checks one watcher: both folders absolute, every rule with at least one
/// input extension, and no rule's subfolder holding `/`, `\\` or `..`.
fn validate_watcher(w: &WatchConfig) -> (r: Result<(), ConfigError>)
    ensures
        r is Ok <==> watcher_problem(*w) is None,
        r matches Err(e) ==> Some(e.spec_message()) == watcher_problem(*w),
{
    if w.watch_folder.as_str().is_empty() {
        return Err(ConfigError::EmptyWatchFolder { watcher: w.name.clone() });
    }
    let label = folder_label(w.name.as_str(), "watch_folder");
    match validate_absolute_path(w.watch_folder.as_str(), label.as_str()) {
        Ok(()) => {},
        Err(e) => {
            return Err(e);
        },
    }
    if w.output_folder.as_str().is_empty() {
        return Err(ConfigError::EmptyOutputFolder { watcher: w.name.clone() });
    }
    let label = folder_label(w.name.as_str(), "output_folder");
    match validate_absolute_path(w.output_folder.as_str(), label.as_str()) {
        Ok(()) => {},
        Err(e) => {
            return Err(e);
        },
    }
    match first_empty_rule(&w.watch_type) {
        Some(j) => {
            let kind = match &w.watch_type {
                WatchType::Video { .. } => RuleKind::Video,
                WatchType::Image { .. } => RuleKind::Image,
                WatchType::Audio { .. } => RuleKind::Audio,
                WatchType::Pdf { .. } => RuleKind::Pdf,
                WatchType::Document { .. } => RuleKind::Document,
                WatchType::Custom { .. } => RuleKind::Custom,
            };
            proof {
                lemma_first_empty_unique(ext_counts(w.watch_type), j as int);
            }
            return Err(ConfigError::EmptyExtensions { watcher: w.name.clone(), kind, index: j });
        },
        None => {
            proof {
                let counts = ext_counts(w.watch_type);
                if exists|j: int| first_empty_at(counts, j) {
                    let j = choose|j: int| first_empty_at(counts, j);
                    assert(counts[j] > 0);
                }
            }
        },
    }
    match first_unsafe_rule(&w.watch_type) {
        Some((j, name)) => {
            let kind = match &w.watch_type {
                WatchType::Video { .. } => RuleKind::Video,
                WatchType::Image { .. } => RuleKind::Image,
                WatchType::Audio { .. } => RuleKind::Audio,
                WatchType::Pdf { .. } => RuleKind::Pdf,
                WatchType::Document { .. } => RuleKind::Document,
                WatchType::Custom { .. } => RuleKind::Custom,
            };
            proof {
                lemma_first_unsafe_unique(rule_subfolders(w.watch_type), j as int);
            }
            Err(ConfigError::UnsafeSubfolder { watcher: w.name.clone(), kind, index: j, subfolder: name })
        },
        None => {
            proof {
                let subs = rule_subfolders(w.watch_type);
                if exists|j: int| first_unsafe_at(subs, j) {
                    let j = choose|j: int| first_unsafe_at(subs, j);
                    assert(!unsafe_at(subs, j));
                }
            }
            Ok(())
        },
    }
}

/// Checks a configuration: the error log and history files absolute, the
/// file check, refresh and disk check intervals non-zero, then each watcher
/// in order.
pub fn validate_config(global: &GlobalConfig, watchers: &Vec<WatchConfig>) -> (r: Result<(), ConfigError>)
    ensures
        r is Ok <==> global_problem(*global) is None && forall|j: int|
            0 <= j < watchers@.len() ==> #[trigger] watcher_problem(watchers@[j]) is None,
        r matches Err(e) ==> match global_problem(*global) {
            Some(m) => e.spec_message() == m,
            None => exists|j: int|
                first_bad_watcher(watchers@, j) && Some(e.spec_message()) == watcher_problem(
                    #[trigger] watchers@[j],
                ),
        },
{
    match validate_absolute_path(global.log.errors_file.as_str(), "log.errors_file") {
        Ok(()) => {},
        Err(e) => {
            return Err(e);
        },
    }
    match validate_absolute_path(global.history.file.as_str(), "history.file") {
        Ok(()) => {},
        Err(e) => {
            return Err(e);
        },
    }
    if global.file_check_interval_ms == 0 {
        return Err(ConfigError::ZeroInterval { field: owned("file_check_interval") });
    }
    if global.config_refresh_interval_s == 0 {
        return Err(ConfigError::ZeroInterval { field: owned("refresh_interval") });
    }
    if global.disk_space.check_interval_s == 0 {
        return Err(ConfigError::ZeroInterval { field: owned("disk_space.check_interval") });
    }
    let mut i: usize = 0;
    while i < watchers.len()
        invariant
            i <= watchers@.len(),
            global_problem(*global) is None,
            forall|l: int| 0 <= l < i ==> #[trigger] watcher_problem(watchers@[l]) is None,
        decreases watchers@.len() - i,
    {
        match validate_watcher(&watchers[i]) {
            Ok(()) => {},
            Err(e) => {
                proof {
                    assert(first_bad_watcher(watchers@, i as int));
                }
                return Err(e);
            },
        }
        i = i + 1;
    }
    Ok(())
}

/// The minimum duration ratios of the default rules, as IEEE-754 bit
/// patterns of 0.9 and 0.95.
pub const RATIO_0_9_BITS: u64 = 0x3FEC_CCCC_CCCC_CCCD;
pub const RATIO_0_95_BITS: u64 = 0x3FEE_6666_6666_6666;

/// The global settings written on first run under the directory `base`:
/// the defaults, with the error log and the history in `{base}/logs`.
pub open spec fn default_global_under(g: GlobalConfig, base: Seq<char>) -> bool {
    let logs = join(base, "logs"@);
    &&& g.file_check_interval_ms == 2000
    &&& g.stable_time_ms == 5000
    &&& g.ffmpeg_path@ == "/usr/bin/ffmpeg"@
    &&& g.ffprobe_path is None
    &&& g.max_concurrent_conversions == 4
    &&& g.config_refresh_interval_s == 300
    &&& g.embedded_secret@.len() == 0
    &&& g.embedded_scan_interval_s == 0
    &&& preset_paths_are_default(g.codec_presets)
    &&& g.log.errors_file@ == join(logs, "errors.log"@)
    &&& g.log.max_log_files == 30
    &&& g.log.max_log_size_mb == 100
    &&& g.log.max_error_log_size_mb == 50
    &&& healthcheck_is_default(g.healthcheck)
    &&& disk_space_is_default(g.disk_space)
    &&& !g.history.persistent
    &&& g.history.file@ == join(logs, "history.json"@)
    &&& g.history.max_records == 500
    &&& g.input_file_action == InputFileAction::Mark
    &&& worker_config_is_default(g.worker)
}

/// A video rule of the default watcher: its preset, subfolder, extensions
/// and duration ratio, everything else left to the preset.
pub open spec fn default_rule_is(
    r: VideoRule,
    preset: Seq<char>,
    subfolder: Option<Seq<char>>,
    exts: Seq<Seq<char>>,
    ratio_bits: u64,
) -> bool {
    &&& r.preset@ == preset
    &&& match (r.subfolder, subfolder) {
        (Some(a), Some(b)) => a@ == b,
        (None, None) => true,
        _ => false,
    }
    &&& views(r.input_extensions@) == exts
    &&& r.output_ext is None
    &&& r.codec is None
    &&& r.quality is None
    &&& r.audio_codec is None
    &&& r.audio_bitrate is None
    &&& r.output_name is None
    &&& r.check_duration == Some(true)
    &&& r.min_duration_ratio_bits == Some(ratio_bits)
}

/// The watcher written on first run under the directory `base`: `default`,
/// watching `{base}/inputs/default/` into `{base}/outputs/default/`, with
/// the `gpu` and `archive` subfolders and three video rules.
pub open spec fn default_watcher_under(w: WatchConfig, base: Seq<char>) -> bool {
    &&& w.name@ == "default"@
    &&& w.watch_folder@ == join(join(base, "inputs"@), "default"@) + "/"@
    &&& w.output_folder@ == join(join(base, "outputs"@), "default"@) + "/"@
    &&& w.subfolders@.len() == 2
    &&& w.subfolders@[0].name@ == "gpu"@
    &&& w.subfolders@[0].description matches Some(d0) && d0@ == "GPU-accelerated encoding"@
    &&& w.subfolders@[1].name@ == "archive"@
    &&& w.subfolders@[1].description matches Some(d1) && d1@ == "High-quality archival"@
    &&& w.watch_type matches WatchType::Video { rules } && rules@.len() == 3 && default_rule_is(
        rules@[0],
        "libx264"@,
        None,
        seq![
            ".mp4"@,
            ".avi"@,
            ".mkv"@,
            ".mov"@,
            ".webm"@,
            ".flv"@,
            ".wmv"@,
            ".mpeg"@,
            ".mpg"@,
            ".ts"@,
            ".mts"@,
            ".mxf"@,
        ],
        RATIO_0_9_BITS,
    ) && default_rule_is(
        rules@[1],
        "h264_nvenc"@,
        Some("gpu"@),
        seq![".mxf"@, ".mts"@, ".mov"@],
        RATIO_0_9_BITS,
    ) && default_rule_is(
        rules@[2],
        "libx265_high"@,
        Some("archive"@),
        seq![".mxf"@, ".mts"@, ".mov"@, ".mkv"@],
        RATIO_0_95_BITS,
    )
}

fn string_list(items: &[&str]) -> (r: Vec<String>)
    ensures
        views(r@) == items@.map_values(|s: &str| s@),
{
    let mut out: Vec<String> = Vec::new();
    let mut i: usize = 0;
    while i < items.len()
        invariant
            i <= items@.len(),
            views(out@) == items@.take(i as int).map_values(|s: &str| s@),
        decreases items@.len() - i,
    {
        push_str(&mut out, items[i]);
        proof {
            assert(items@.take(i + 1) =~= items@.take(i as int).push(items@[i as int]));
            assert(items@.take(i + 1).map_values(|s: &str| s@) =~= items@.take(i as int).map_values(|s: &str| s@).push(
                items@[i as int]@,
            ));
        }
        i = i + 1;
    }
    assert(items@.take(items@.len() as int) =~= items@);
    out
}

fn default_rule(preset: &str, subfolder: Option<&str>, exts: &[&str], ratio_bits: u64) -> (r: VideoRule)
    ensures
        r.preset@ == preset@,
        match (r.subfolder, subfolder) {
            (Some(a), Some(b)) => a@ == b@,
            (None, None) => true,
            _ => false,
        },
        views(r.input_extensions@) == exts@.map_values(|s: &str| s@),
        r.output_ext is None,
        r.codec is None,
        r.quality is None,
        r.audio_codec is None,
        r.audio_bitrate is None,
        r.output_name is None,
        r.check_duration == Some(true),
        r.min_duration_ratio_bits == Some(ratio_bits),
{
    VideoRule {
        preset: owned(preset),
        subfolder: match subfolder {
            Some(s) => Some(owned(s)),
            None => None,
        },
        input_extensions: string_list(exts),
        output_ext: None,
        codec: None,
        quality: None,
        audio_codec: None,
        audio_bitrate: None,
        output_name: None,
        check_duration: Some(true),
        min_duration_ratio_bits: Some(ratio_bits),
    }
}

/// The watcher that `--watch {folder}` adds: `quick`, watching `folder` into
/// `folder` (trailing `/` removed) with `-output` appended, a video watcher
/// without subfolders or rules.
pub fn quick_watch_config(watch_folder: &str) -> (r: WatchConfig)
    ensures
        r.name@ == "quick"@,
        r.watch_folder@ == watch_folder@,
        r.output_folder@ == trim_end_char(watch_folder@, '/') + "-output"@,
        r.subfolders@.len() == 0,
        r.watch_type matches WatchType::Video { rules } && rules@.len() == 0,
{
    let mut output_folder = trim_end_matches_char(watch_folder, '/');
    append(&mut output_folder, "-output");
    WatchConfig {
        name: owned("quick"),
        watch_folder: owned(watch_folder),
        output_folder,
        subfolders: Vec::new(),
        watch_type: WatchType::Video { rules: Vec::new() },
    }
}

/// The configuration written on first run, for the absolute working
/// directory `base`.
pub fn default_setup(base: &str) -> (r: (GlobalConfig, Vec<WatchConfig>))
    ensures
        default_global_under(r.0, base@),
        r.1@.len() == 1,
        default_watcher_under(r.1@[0], base@),
{
    let logs = join_path(base, "logs");
    let mut g = GlobalConfig::default();
    g.log.errors_file = join_path(logs.as_str(), "errors.log");
    g.history.file = join_path(logs.as_str(), "history.json");
    let inputs = join_path(base, "inputs");
    let outputs = join_path(base, "outputs");
    let mut watch_folder = join_path(inputs.as_str(), "default");
    append(&mut watch_folder, "/");
    let mut output_folder = join_path(outputs.as_str(), "default");
    append(&mut output_folder, "/");
    let r0 = default_rule(
        "libx264",
        None,
        &[".mp4", ".avi", ".mkv", ".mov", ".webm", ".flv", ".wmv", ".mpeg", ".mpg", ".ts", ".mts", ".mxf"],
        RATIO_0_9_BITS,
    );
    let r1 = default_rule("h264_nvenc", Some("gpu"), &[".mxf", ".mts", ".mov"], RATIO_0_9_BITS);
    let r2 = default_rule("libx265_high", Some("archive"), &[".mxf", ".mts", ".mov", ".mkv"], RATIO_0_95_BITS);
    proof {
        let e0 = seq![".mp4"@, ".avi"@, ".mkv"@, ".mov"@, ".webm"@, ".flv"@, ".wmv"@, ".mpeg"@, ".mpg"@, ".ts"@, ".mts"@, ".mxf"@];
        assert(views(r0.input_extensions@) =~= e0);
        assert(default_rule_is(r0, "libx264"@, None, e0, RATIO_0_9_BITS));
        assert(views(r1.input_extensions@) =~= seq![".mxf"@, ".mts"@, ".mov"@]);
        assert(default_rule_is(r1, "h264_nvenc"@, Some("gpu"@), seq![".mxf"@, ".mts"@, ".mov"@], RATIO_0_9_BITS));
        assert(views(r2.input_extensions@) =~= seq![".mxf"@, ".mts"@, ".mov"@, ".mkv"@]);
        assert(default_rule_is(r2, "libx265_high"@, Some("archive"@), seq![".mxf"@, ".mts"@, ".mov"@, ".mkv"@], RATIO_0_95_BITS));
    }
    let mut rules: Vec<VideoRule> = Vec::new();
    rules.push(r0);
    rules.push(r1);
    rules.push(r2);
    let mut subfolders: Vec<Subfolder> = Vec::new();
    subfolders.push(Subfolder { name: owned("gpu"), description: Some(owned("GPU-accelerated encoding")) });
    subfolders.push(Subfolder { name: owned("archive"), description: Some(owned("High-quality archival")) });
    let w = WatchConfig {
        name: owned("default"),
        watch_folder,
        output_folder,
        subfolders,
        watch_type: WatchType::Video { rules },
    };
    let mut ws: Vec<WatchConfig> = Vec::new();
    ws.push(w);
    (g, ws)
}


/// The directory a file lives in, as a one-element list, or nothing when
/// the path has no parent.
pub open spec fn parent_dirs(file: Seq<char>) -> Seq<Seq<char>> {
    match parent(file) {
        Some(d) => seq![d],
        None => Seq::empty(),
    }
}

/// The watch and output folders of `ws`, in order.
pub open spec fn watcher_dirs(ws: Seq<WatchConfig>) -> Seq<Seq<char>>
    decreases ws.len(),
{
    if ws.len() == 0 {
        Seq::empty()
    } else {
        watcher_dirs(ws.drop_last()) + seq![ws.last().watch_folder@, ws.last().output_folder@]
    }
}

/// The directories made at startup, in order: that of the error log, that
/// of the history file, then each watcher's watch and output folders.
pub open spec fn startup_dirs(errors_file: Seq<char>, history_file: Seq<char>, ws: Seq<WatchConfig>) -> Seq<
    Seq<char>,
> {
    parent_dirs(errors_file) + parent_dirs(history_file) + watcher_dirs(ws)
}

/// The directories `create_directories` makes, in order.
pub fn directories_plan(global: &GlobalConfig, watchers: &Vec<WatchConfig>) -> (r: Vec<String>)
    ensures
        views(r@) == startup_dirs(global.log.errors_file@, global.history.file@, watchers@),
{
    let mut out: Vec<String> = Vec::new();
    match path_parent(global.log.errors_file.as_str()) {
        Some(d) => out.push(d),
        None => {},
    }
    match path_parent(global.history.file.as_str()) {
        Some(d) => out.push(d),
        None => {},
    }
    let ghost head = parent_dirs(global.log.errors_file@) + parent_dirs(global.history.file@);
    assert(views(out@) =~= head);
    let mut i: usize = 0;
    while i < watchers.len()
        invariant
            i <= watchers@.len(),
            views(out@) == head + watcher_dirs(watchers@.take(i as int)),
        decreases watchers@.len() - i,
    {
        let ghost before = out@;
        out.push(watchers[i].watch_folder.clone());
        out.push(watchers[i].output_folder.clone());
        proof {
            let t = watchers@.take(i + 1);
            assert(t.drop_last() =~= watchers@.take(i as int));
            assert(views(out@) =~= views(before) + seq![watchers@[i as int].watch_folder@, watchers@[i as int].output_folder@]);
        }
        i = i + 1;
    }
    assert(watchers@.take(watchers@.len() as int) =~= watchers@);
    out
}

} // verus!
