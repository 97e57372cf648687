//! Global daemon settings and their defaults. Durations are held in
//! milliseconds or seconds as the field names say; floating-point thresholds
//! are held as IEEE-754 bit patterns and never computed with here.
use vstd::prelude::*;
use crate::common::config::{sibling_ffprobe, sibling_ffprobe_path};
use crate::config::codec_registry::{preset_paths_are_default, CodecPresetPaths};
use crate::text::{chars_of, ends_with, has_suffix, owned, parse_u64, parse_u64_spec, string_of, trim, trim_str};

verus! {

pub fn default_file_check_interval() -> (r: u64)
    ensures
        r == 2000,
{
    2000
}

pub fn default_stable_time() -> (r: u64)
    ensures
        r == 5000,
{
    5000
}

pub fn default_ffmpeg_path() -> (r: String)
    ensures
        r@ == "/usr/bin/ffmpeg"@,
{
    owned("/usr/bin/ffmpeg")
}

pub fn default_max_concurrent() -> (r: u32)
    ensures
        r == 4,
{
    4
}

pub fn default_config_refresh() -> (r: u64)
    ensures
        r == 300,
{
    300
}

pub fn default_log_config() -> (r: LogConfig)
    ensures
        log_config_is_default(r),
{
    LogConfig::default()
}

pub fn default_healthcheck() -> (r: HealthcheckConfig)
    ensures
        healthcheck_is_default(r),
{
    HealthcheckConfig::default()
}

pub fn default_disk_space() -> (r: DiskSpaceConfig)
    ensures
        disk_space_is_default(r),
{
    DiskSpaceConfig::default()
}

pub fn default_history() -> (r: HistoryConfig)
    ensures
        history_is_default(r),
{
    HistoryConfig::default()
}

pub fn default_codec_presets() -> (r: CodecPresetPaths)
    ensures
        preset_paths_are_default(r),
{
    CodecPresetPaths::default()
}

pub fn default_input_action() -> (r: InputFileAction)
    ensures
        r == InputFileAction::Mark,
{
    InputFileAction::Mark
}

pub fn default_worker() -> (r: WorkerConfig)
    ensures
        worker_config_is_default(r),
{
    WorkerConfig::default()
}

/// Global settings.
#[derive(Debug, Clone)]
pub struct GlobalConfig {
    pub file_check_interval_ms: u64,
    pub stable_time_ms: u64,
    pub ffmpeg_path: String,
    pub ffprobe_path: Option<String>,
    pub max_concurrent_conversions: u32,
    pub config_refresh_interval_s: u64,
    pub embedded_secret: String,
    pub embedded_scan_interval_s: u64,
    pub codec_presets: CodecPresetPaths,
    pub log: LogConfig,
    pub healthcheck: HealthcheckConfig,
    pub disk_space: DiskSpaceConfig,
    pub history: HistoryConfig,
    pub input_file_action: InputFileAction,
    pub worker: WorkerConfig,
}

/// The global settings used when the configuration file gives none.
pub open spec fn global_is_default(g: GlobalConfig) -> bool {
    &&& g.file_check_interval_ms == 2000
    &&& g.stable_time_ms == 5000
    &&& g.ffmpeg_path@ == "/usr/bin/ffmpeg"@
    &&& g.ffprobe_path is None
    &&& g.max_concurrent_conversions == 4
    &&& g.config_refresh_interval_s == 300
    &&& g.embedded_secret@ == Seq::<char>::empty()
    &&& g.embedded_scan_interval_s == 0
    &&& preset_paths_are_default(g.codec_presets)
    &&& log_config_is_default(g.log)
    &&& healthcheck_is_default(g.healthcheck)
    &&& disk_space_is_default(g.disk_space)
    &&& history_is_default(g.history)
    &&& g.input_file_action == InputFileAction::Mark
    &&& worker_config_is_default(g.worker)
}

impl Default for GlobalConfig {
    fn default() -> (r: Self)
        ensures
            global_is_default(r),
    {
        GlobalConfig {
            file_check_interval_ms: default_file_check_interval(),
            stable_time_ms: default_stable_time(),
            ffmpeg_path: default_ffmpeg_path(),
            ffprobe_path: None,
            max_concurrent_conversions: default_max_concurrent(),
            config_refresh_interval_s: default_config_refresh(),
            embedded_secret: String::new(),
            embedded_scan_interval_s: 0,
            codec_presets: default_codec_presets(),
            log: default_log_config(),
            healthcheck: default_healthcheck(),
            disk_space: default_disk_space(),
            history: default_history(),
            input_file_action: default_input_action(),
            worker: default_worker(),
        }
    }
}

impl GlobalConfig {
    /// The ffprobe binary: the configured one, else the one beside ffmpeg.
    pub fn ffprobe(&self) -> (r: String)
        ensures
            r@ == match self.ffprobe_path {
                Some(p) => p@,
                None => sibling_ffprobe(self.ffmpeg_path@),
            },
    {
        match &self.ffprobe_path {
            Some(p) => p.clone(),
            None => sibling_ffprobe_path(self.ffmpeg_path.as_str()),
        }
    }
}

/// What happens to an input file after its conversion.
#[derive(Debug, Clone, Copy, PartialEq, Eq, Structural)]
pub enum InputFileAction {
    /// Rename to `.done` / `.error`.
    Mark,
    /// Delete on success, mark on failure.
    Delete,
    /// Leave it alone (`none` in configuration files).
    Leave,
}

impl Default for InputFileAction {
    fn default() -> (r: Self)
        ensures
            r == InputFileAction::Mark,
    {
        InputFileAction::Mark
    }
}

/// Settings of the coordinator's remote worker pool.
#[derive(Debug, Clone)]
pub struct WorkerConfig {
    pub bind_address: String,
    pub advertise_address: Option<String>,
    pub discovery_port: u16,
    pub coordinator_port: u16,
}

pub fn default_worker_bind() -> (r: String)
    ensures
        r@ == "0.0.0.0"@,
{
    owned("0.0.0.0")
}

pub fn default_discovery_port() -> (r: u16)
    ensures
        r == 8687,
{
    8687
}

pub fn default_coordinator_port() -> (r: u16)
    ensures
        r == 8688,
{
    8688
}

pub open spec fn worker_config_is_default(w: WorkerConfig) -> bool {
    &&& w.bind_address@ == "0.0.0.0"@
    &&& w.advertise_address is None
    &&& w.discovery_port == 8687
    &&& w.coordinator_port == 8688
}

impl Default for WorkerConfig {
    fn default() -> (r: Self)
        ensures
            worker_config_is_default(r),
    {
        WorkerConfig {
            bind_address: default_worker_bind(),
            advertise_address: None,
            discovery_port: default_discovery_port(),
            coordinator_port: default_coordinator_port(),
        }
    }
}

/// Error-log settings.
#[derive(Debug, Clone)]
pub struct LogConfig {
    pub errors_file: String,
    pub max_log_files: u32,
    pub max_log_size_mb: u64,
    pub max_error_log_size_mb: u64,
}

pub fn default_errors_file() -> (r: String)
    ensures
        r@ == "./logs/errors.log"@,
{
    owned("./logs/errors.log")
}

pub fn default_max_log_files() -> (r: u32)
    ensures
        r == 30,
{
    30
}

pub fn default_max_log_size_mb() -> (r: u64)
    ensures
        r == 100,
{
    100
}

pub fn default_max_error_log_size_mb() -> (r: u64)
    ensures
        r == 50,
{
    50
}

pub open spec fn log_config_is_default(l: LogConfig) -> bool {
    &&& l.errors_file@ == "./logs/errors.log"@
    &&& l.max_log_files == 30
    &&& l.max_log_size_mb == 100
    &&& l.max_error_log_size_mb == 50
}

impl Default for LogConfig {
    fn default() -> (r: Self)
        ensures
            log_config_is_default(r),
    {
        LogConfig {
            errors_file: default_errors_file(),
            max_log_files: default_max_log_files(),
            max_log_size_mb: default_max_log_size_mb(),
            max_error_log_size_mb: default_max_error_log_size_mb(),
        }
    }
}

/// Health dashboard settings.
#[derive(Debug, Clone)]
pub struct HealthcheckConfig {
    pub http_port: u16,
    pub bind_address: String,
}

pub fn default_http_port() -> (r: u16)
    ensures
        r == 8080,
{
    8080
}

/// The dashboard binds to all interfaces by default, as documented.
pub fn default_bind_address() -> (r: String)
    ensures
        r@ == "0.0.0.0"@,
{
    owned("0.0.0.0")
}

pub open spec fn healthcheck_is_default(h: HealthcheckConfig) -> bool {
    &&& h.http_port == 8080
    &&& h.bind_address@ == "0.0.0.0"@
}

impl Default for HealthcheckConfig {
    fn default() -> (r: Self)
        ensures
            healthcheck_is_default(r),
    {
        HealthcheckConfig { http_port: default_http_port(), bind_address: default_bind_address() }
    }
}

/// Disk-space guard settings.
#[derive(Debug, Clone)]
pub struct DiskSpaceConfig {
    pub check_interval_s: u64,
    pub threshold: DiskSpaceThreshold,
    pub check_output: bool,
    pub check_watch: bool,
}

/// Free-space threshold: megabytes, or gigabytes / a percentage of the disk
/// given as floating-point bit patterns.
#[derive(Debug, Clone, Copy, PartialEq, Eq, Structural)]
pub enum DiskSpaceThreshold {
    Mb(u64),
    GbBits(u64),
    PercentBits(u64),
}

pub fn default_disk_check_interval() -> (r: u64)
    ensures
        r == 60,
{
    60
}

pub fn default_disk_threshold() -> (r: DiskSpaceThreshold)
    ensures
        r == DiskSpaceThreshold::Mb(500),
{
    DiskSpaceThreshold::Mb(500)
}

pub open spec fn disk_space_is_default(d: DiskSpaceConfig) -> bool {
    &&& d.check_interval_s == 60
    &&& d.threshold == DiskSpaceThreshold::Mb(500)
    &&& !d.check_output
    &&& !d.check_watch
}

impl Default for DiskSpaceConfig {
    fn default() -> (r: Self)
        ensures
            disk_space_is_default(r),
    {
        DiskSpaceConfig {
            check_interval_s: default_disk_check_interval(),
            threshold: default_disk_threshold(),
            check_output: false,
            check_watch: false,
        }
    }
}

/// Conversion-history settings.
#[derive(Debug, Clone)]
pub struct HistoryConfig {
    pub persistent: bool,
    pub file: String,
    pub max_records: usize,
}

pub fn default_history_file() -> (r: String)
    ensures
        r@ == "./logs/history.json"@,
{
    owned("./logs/history.json")
}

pub fn default_max_records() -> (r: usize)
    ensures
        r == 500,
{
    500
}

pub open spec fn history_is_default(h: HistoryConfig) -> bool {
    &&& !h.persistent
    &&& h.file@ == "./logs/history.json"@
    &&& h.max_records == 500
}

impl Default for HistoryConfig {
    fn default() -> (r: Self)
        ensures
            history_is_default(r),
    {
        HistoryConfig {
            persistent: false,
            file: default_history_file(),
            max_records: default_max_records(),
        }
    }
}

/// The unit a duration is written in.
#[derive(Debug, Clone, Copy, PartialEq, Eq, Structural)]
pub enum DurationUnit {
    Millis,
    Seconds,
    Minutes,
    Hours,
    /// No unit: the configuration's own unit.
    Bare,
}

/// `t` without its last `n` characters, trimmed.
pub open spec fn cut_trim(t: Seq<char>, n: int) -> Seq<char> {
    trim(t.take(t.len() - n))
}

/// A duration string split into its unit and its number: trimmed, then
/// the suffix `ms`, `s`, `m` or `h` (tried in that order) taken off and the
/// rest trimmed again.
pub open spec fn duration_split(s: Seq<char>) -> (DurationUnit, Seq<char>) {
    let t = trim(s);
    if ends_with(t, "ms"@) {
        (DurationUnit::Millis, cut_trim(t, 2))
    } else if ends_with(t, "s"@) {
        (DurationUnit::Seconds, cut_trim(t, 1))
    } else if ends_with(t, "m"@) {
        (DurationUnit::Minutes, cut_trim(t, 1))
    } else if ends_with(t, "h"@) {
        (DurationUnit::Hours, cut_trim(t, 1))
    } else {
        (DurationUnit::Bare, t)
    }
}

/// `t` without its last `n` characters, trimmed.
fn cut_and_trim(t: &str, n: usize) -> (r: String)
    requires
        n <= t@.len(),
    ensures
        r@ == cut_trim(t@, n as int),
{
    let v = chars_of(t);
    let head = string_of(&v, 0, v.len() - n);
    assert(head@ =~= t@.take(t@.len() - n));
    trim_str(head.as_str())
}

/// Splits a duration string into its unit and its number.
pub fn duration_parts(s: &str) -> (r: (DurationUnit, String))
    ensures
        (r.0, r.1@) == duration_split(s@),
{
    proof {
        reveal_strlit("ms");
        reveal_strlit("s");
        reveal_strlit("m");
        reveal_strlit("h");
    }
    let t = trim_str(s);
    let ts = t.as_str();
    if has_suffix(ts, "ms") {
        (DurationUnit::Millis, cut_and_trim(ts, 2))
    } else if has_suffix(ts, "s") {
        (DurationUnit::Seconds, cut_and_trim(ts, 1))
    } else if has_suffix(ts, "m") {
        (DurationUnit::Minutes, cut_and_trim(ts, 1))
    } else if has_suffix(ts, "h") {
        (DurationUnit::Hours, cut_and_trim(ts, 1))
    } else {
        (DurationUnit::Bare, t)
    }
}

/// A disk-space threshold as written: a percentage or gigabytes (numbers
/// still to be read as floating point), or whole megabytes.
#[derive(Debug, Clone, PartialEq, Eq)]
pub enum ThresholdText {
    Percent(String),
    Gb(String),
    /// Megabytes, or `None` where the text is not a whole number.
    Mb(Option<u64>),
}

/// The reading of a threshold string: trimmed; `%` makes a percentage and
/// `Gb`, `gb` or `GB` gigabytes (the rest trimmed); anything else must be
/// whole megabytes.
pub open spec fn threshold_split(s: Seq<char>) -> (ThresholdForm, Seq<char>) {
    let t = trim(s);
    if ends_with(t, "%"@) {
        (ThresholdForm::Percent, cut_trim(t, 1))
    } else if ends_with(t, "Gb"@) || ends_with(t, "gb"@) || ends_with(t, "GB"@) {
        (ThresholdForm::Gb, cut_trim(t, 2))
    } else {
        (ThresholdForm::Mb, t)
    }
}

/// The three ways a threshold can be written.
#[derive(Debug, Clone, Copy, PartialEq, Eq, Structural)]
pub enum ThresholdForm {
    Percent,
    Gb,
    Mb,
}

/// Reads a threshold string.
pub fn threshold_parts(s: &str) -> (r: ThresholdText)
    ensures
        match threshold_split(s@) {
            (ThresholdForm::Percent, n) => r matches ThresholdText::Percent(x) && x@ == n,
            (ThresholdForm::Gb, n) => r matches ThresholdText::Gb(x) && x@ == n,
            (ThresholdForm::Mb, n) => r == ThresholdText::Mb(parse_u64_spec(n)),
        },
{
    proof {
        reveal_strlit("%");
        reveal_strlit("Gb");
        reveal_strlit("gb");
        reveal_strlit("GB");
    }
    let t = trim_str(s);
    let ts = t.as_str();
    if has_suffix(ts, "%") {
        ThresholdText::Percent(cut_and_trim(ts, 1))
    } else if has_suffix(ts, "Gb") || has_suffix(ts, "gb") || has_suffix(ts, "GB") {
        ThresholdText::Gb(cut_and_trim(ts, 2))
    } else {
        ThresholdText::Mb(parse_u64(ts))
    }
}

} // verus!
