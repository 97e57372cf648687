//! The folder monitor's decisions: which rule a file matches, which
//! directories a watcher needs, and when a growing file has become stable.
use vstd::prelude::*;
use crate::config::global::InputFileAction;
use crate::config::embedded::EmbeddedConfig;
use crate::config::watch::{kind_label_of, lemma_label_determines_kind, same_kind, Subfolder, WatchConfig, WatchType};
use crate::paths::{
    extension, file_name, join, join_path, parent, path_extension, path_file_name, path_parent, path_with_extension,
    with_extension,
};
use crate::processor::job::{ConversionJob, MatchedRule};
use crate::keyed::{distinct_keys, key_at, lemma_pairs_lookup, pairs_map, Keyed};
use crate::processor::namer::{answers_from, reported_existing, reported_free};
use crate::text::{
    append, chars_of, ends_with, has_prefix, has_suffix, list_contains, lowercase, owned, push_char,
    starts_with, str_eq, string_of, to_lowercase, views,
};

verus! {

// ---------------------------------------------------------------------------
// Rules of a watcher, by position
// ---------------------------------------------------------------------------

/// The number of rules of a watcher type.
pub open spec fn rule_count(t: WatchType) -> nat {
    match t {
        WatchType::Video { rules } => rules@.len(),
        WatchType::Image { rules } => rules@.len(),
        WatchType::Audio { rules } => rules@.len(),
        WatchType::Pdf { rules } => rules@.len(),
        WatchType::Document { rules } => rules@.len(),
        WatchType::Custom { rules } => rules@.len(),
    }
}

/// The subfolder of rule `i`.
pub open spec fn rule_subfolder(t: WatchType, i: int) -> Option<String> {
    match t {
        WatchType::Video { rules } => rules@[i].subfolder,
        WatchType::Image { rules } => rules@[i].subfolder,
        WatchType::Audio { rules } => rules@[i].subfolder,
        WatchType::Pdf { rules } => rules@[i].subfolder,
        WatchType::Document { rules } => rules@[i].subfolder,
        WatchType::Custom { rules } => rules@[i].subfolder,
    }
}

/// The input extensions of rule `i`.
pub open spec fn rule_exts(t: WatchType, i: int) -> Seq<String> {
    match t {
        WatchType::Video { rules } => rules@[i].input_extensions@,
        WatchType::Image { rules } => rules@[i].input_extensions@,
        WatchType::Audio { rules } => rules@[i].input_extensions@,
        WatchType::Pdf { rules } => rules@[i].input_extensions@,
        WatchType::Document { rules } => rules@[i].input_extensions@,
        WatchType::Custom { rules } => rules@[i].input_extensions@,
    }
}

/// `m` is rule `i` of `t`, of the same kind.
pub open spec fn matched_at(t: WatchType, i: int, m: MatchedRule) -> bool {
    match (t, m) {
        (WatchType::Video { rules }, MatchedRule::Video(r)) => r.same(rules@[i]),
        (WatchType::Image { rules }, MatchedRule::Image(r)) => r.same(rules@[i]),
        (WatchType::Audio { rules }, MatchedRule::Audio(r)) => r.same(rules@[i]),
        (WatchType::Pdf { rules }, MatchedRule::Pdf(r)) => r.same(rules@[i]),
        (WatchType::Document { rules }, MatchedRule::Document(r)) => r.same(rules@[i]),
        (WatchType::Custom { rules }, MatchedRule::Custom(r)) => r.same(rules@[i]),
        _ => false,
    }
}

fn count_of(t: &WatchType) -> (r: usize)
    ensures
        r == rule_count(*t),
{
    match t {
        WatchType::Video { rules } => rules.len(),
        WatchType::Image { rules } => rules.len(),
        WatchType::Audio { rules } => rules.len(),
        WatchType::Pdf { rules } => rules.len(),
        WatchType::Document { rules } => rules.len(),
        WatchType::Custom { rules } => rules.len(),
    }
}

fn subfolder_of(t: &WatchType, i: usize) -> (r: &Option<String>)
    requires
        i < rule_count(*t),
    ensures
        *r == rule_subfolder(*t, i as int),
{
    match t {
        WatchType::Video { rules } => &rules[i].subfolder,
        WatchType::Image { rules } => &rules[i].subfolder,
        WatchType::Audio { rules } => &rules[i].subfolder,
        WatchType::Pdf { rules } => &rules[i].subfolder,
        WatchType::Document { rules } => &rules[i].subfolder,
        WatchType::Custom { rules } => &rules[i].subfolder,
    }
}

fn exts_of(t: &WatchType, i: usize) -> (r: &Vec<String>)
    requires
        i < rule_count(*t),
    ensures
        r@ == rule_exts(*t, i as int),
{
    match t {
        WatchType::Video { rules } => &rules[i].input_extensions,
        WatchType::Image { rules } => &rules[i].input_extensions,
        WatchType::Audio { rules } => &rules[i].input_extensions,
        WatchType::Pdf { rules } => &rules[i].input_extensions,
        WatchType::Document { rules } => &rules[i].input_extensions,
        WatchType::Custom { rules } => &rules[i].input_extensions,
    }
}

fn matched_rule_at(t: &WatchType, i: usize) -> (m: MatchedRule)
    requires
        i < rule_count(*t),
    ensures
        matched_at(*t, i as int, m),
{
    match t {
        WatchType::Video { rules } => MatchedRule::Video(rules[i].copied()),
        WatchType::Image { rules } => MatchedRule::Image(rules[i].copied()),
        WatchType::Audio { rules } => MatchedRule::Audio(rules[i].copied()),
        WatchType::Pdf { rules } => MatchedRule::Pdf(rules[i].copied()),
        WatchType::Document { rules } => MatchedRule::Document(rules[i].copied()),
        WatchType::Custom { rules } => MatchedRule::Custom(rules[i].copied()),
    }
}

// ---------------------------------------------------------------------------
// Matching a file to a rule
// ---------------------------------------------------------------------------

/// The extension key of a path: `.` and the lower-cased extension, or empty.
pub open spec fn ext_key(path: Seq<char>) -> Seq<char> {
    match extension(path) {
        Some(e) => seq!['.'] + lowercase(e),
        None => Seq::empty(),
    }
}

/// The routing key of the folder holding a path: for a parent folder named
/// `->{name}`, the lower-cased name.
pub open spec fn folder_key(path: Seq<char>) -> Option<Seq<char>> {
    match parent(path) {
        Some(p) => match file_name(p) {
            Some(n) => if starts_with(n, seq!['-', '>']) {
                Some(lowercase(n.skip(2)))
            } else {
                None
            },
            None => None,
        },
        None => None,
    }
}

/// Rule `i` routes the subfolder `f` and lists the extension `e`.
pub open spec fn sub_match(t: WatchType, i: int, f: Seq<char>, e: Seq<char>) -> bool {
    match rule_subfolder(t, i) {
        Some(s) => s@ == f && views(rule_exts(t, i)).contains(e),
        None => false,
    }
}

/// Rule `i` has no subfolder and lists the extension `e`.
pub open spec fn ext_match(t: WatchType, i: int, e: Seq<char>) -> bool {
    rule_subfolder(t, i) is None && views(rule_exts(t, i)).contains(e)
}

/// Rule `j` is the first rule routing the subfolder `f` that lists the
/// extension `e`.
pub open spec fn first_sub_match(t: WatchType, f: Seq<char>, e: Seq<char>, j: int) -> bool {
    &&& 0 <= j < rule_count(t)
    &&& sub_match(t, j, f, e)
    &&& forall|l: int| 0 <= l < j ==> !#[trigger] sub_match(t, l, f, e)
}

/// Rule `j` is the first rule without subfolder listing the extension `e`.
pub open spec fn first_ext_match(t: WatchType, e: Seq<char>, j: int) -> bool {
    &&& 0 <= j < rule_count(t)
    &&& ext_match(t, j, e)
    &&& forall|l: int| 0 <= l < j ==> !#[trigger] ext_match(t, l, e)
}

/// The rule a file at `path` matches: the first rule routing its `->name`
/// folder that lists its extension, else the first rule without subfolder
/// listing its extension.
pub open spec fn matching_rule_index(t: WatchType, path: Seq<char>) -> Option<int> {
    let f = folder_key(path);
    let e = ext_key(path);
    if f is Some && exists|j: int| first_sub_match(t, f->0, e, j) {
        Some(choose|j: int| first_sub_match(t, f->0, e, j))
    } else if exists|j: int| first_ext_match(t, e, j) {
        Some(choose|j: int| first_ext_match(t, e, j))
    } else {
        None
    }
}

proof fn lemma_first_sub_unique(t: WatchType, f: Seq<char>, e: Seq<char>, j: int)
    requires
        first_sub_match(t, f, e, j),
    ensures
        (choose|k: int| first_sub_match(t, f, e, k)) == j,
{
    let k = choose|k: int| first_sub_match(t, f, e, k);
    assert(first_sub_match(t, f, e, k));
    if k < j {
        assert(!sub_match(t, k, f, e));
    } else if j < k {
        assert(!sub_match(t, j, f, e));
    }
}

proof fn lemma_first_ext_unique(t: WatchType, e: Seq<char>, j: int)
    requires
        first_ext_match(t, e, j),
    ensures
        (choose|k: int| first_ext_match(t, e, k)) == j,
{
    let k = choose|k: int| first_ext_match(t, e, k);
    assert(first_ext_match(t, e, k));
    if k < j {
        assert(!ext_match(t, k, e));
    } else if j < k {
        assert(!ext_match(t, j, e));
    }
}

/// The extension key of a path.
fn extension_key(path: &str) -> (r: String)
    ensures
        r@ == ext_key(path@),
{
    match path_extension(path) {
        Some(e) => {
            let low = to_lowercase(e.as_str());
            let mut k = String::new();
            push_char(&mut k, '.');
            append(&mut k, low.as_str());
            assert(k@ =~= seq!['.'] + lowercase(e@));
            k
        },
        None => String::new(),
    }
}

/// The routing key of the folder holding a path.
fn subfolder_key(path: &str) -> (r: Option<String>)
    ensures
        r matches Some(s) ==> folder_key(path@) == Some(s@),
        r is None ==> folder_key(path@) is None,
{
    match path_parent(path) {
        Some(p) => match path_file_name(p.as_str()) {
            Some(n) => {
                let mut arrow = String::new();
                push_char(&mut arrow, '-');
                push_char(&mut arrow, '>');
                assert(arrow@ =~= seq!['-', '>']);
                if has_prefix(n.as_str(), arrow.as_str()) {
                    let v = chars_of(n.as_str());
                    let rest = string_of(&v, 2, v.len());
                    assert(rest@ =~= n@.skip(2));
                    Some(to_lowercase(rest.as_str()))
                } else {
                    None
                }
            },
            None => None,
        },
        None => None,
    }
}

/// The rule of `watch_type` that a file at `file_path` matches: the first
/// rule whose subfolder is the file's `->name` folder (lower-cased) and
/// which lists the file's lower-cased extension, else the first rule
/// without subfolder listing that extension.
pub fn find_matching_rule(file_path: &str, watch_type: &WatchType) -> (r: Option<MatchedRule>)
    ensures
        match matching_rule_index(*watch_type, file_path@) {
            Some(j) => r matches Some(m) && matched_at(*watch_type, j, m),
            None => r is None,
        },
{
    let ext = extension_key(file_path);
    let fmt = subfolder_key(file_path);
    let n = count_of(watch_type);
    let ghost t = *watch_type;
    match &fmt {
        Some(f) => {
            let mut i: usize = 0;
            while i < n
                invariant
                    n == rule_count(t),
                    t == *watch_type,
                    i <= n,
                    folder_key(file_path@) == Some(f@),
                    ext@ == ext_key(file_path@),
                    forall|l: int| 0 <= l < i ==> !#[trigger] sub_match(t, l, f@, ext@),
                decreases n - i,
            {
                match subfolder_of(watch_type, i) {
                    Some(s) => {
                        if str_eq(s.as_str(), f.as_str()) && list_contains(exts_of(watch_type, i), ext.as_str()) {
                            proof {
                                assert(first_sub_match(t, f@, ext@, i as int));
                                lemma_first_sub_unique(t, f@, ext@, i as int);
                                assert(folder_key(file_path@) == Some(f@));
                                assert(exists|j: int| first_sub_match(t, f@, ext@, j));
                                let fk = folder_key(file_path@);
                                assert(fk->0 == f@);
                                assert(exists|j: int| first_sub_match(t, fk->0, ext@, j));
                                assert((choose|j: int| first_sub_match(t, fk->0, ext@, j)) == i);
                                assert(matching_rule_index(t, file_path@) == Some(i as int));
                            }
                            return Some(matched_rule_at(watch_type, i));
                        }
                    },
                    None => {},
                }
                i = i + 1;
            }
            proof {
                if exists|j: int| first_sub_match(t, f@, ext@, j) {
                    let j = choose|j: int| first_sub_match(t, f@, ext@, j);
                    assert(sub_match(t, j, f@, ext@));
                }
            }
        },
        None => {},
    }
    let ghost fk = folder_key(file_path@);
    assert(fk is Some ==> !exists|j: int| first_sub_match(t, fk->0, ext@, j));
    let mut i: usize = 0;
    while i < n
        invariant
            n == rule_count(t),
            t == *watch_type,
            i <= n,
            fk == folder_key(file_path@),
            fk is Some ==> !exists|j: int| first_sub_match(t, fk->0, ext@, j),
            ext@ == ext_key(file_path@),
            forall|l: int| 0 <= l < i ==> !#[trigger] ext_match(t, l, ext@),
        decreases n - i,
    {
        if subfolder_of(watch_type, i).is_none() && list_contains(exts_of(watch_type, i), ext.as_str()) {
            proof {
                assert(first_ext_match(t, ext@, i as int));
                lemma_first_ext_unique(t, ext@, i as int);
                assert(matching_rule_index(t, file_path@) == Some(i as int));
            }
            return Some(matched_rule_at(watch_type, i));
        }
        i = i + 1;
    }
    proof {
        if exists|j: int| first_ext_match(t, ext@, j) {
            let j = choose|j: int| first_ext_match(t, ext@, j);
            assert(ext_match(t, j, ext@));
        }
    }
    None
}

/// `job` is the job for the file `path` named `name`, matched to `rule`
/// of the watcher `config`.
pub open spec fn job_for(
    job: ConversionJob,
    path: Seq<char>,
    name: Seq<char>,
    config: WatchConfig,
    watcher_name: Seq<char>,
    action: InputFileAction,
    rule: int,
) -> bool {
    &&& job.watcher_name@ == watcher_name
    &&& job.file_name@ == name
    &&& job.file_path@ == path
    &&& matched_at(config.watch_type, rule, job.matched_rule)
    &&& job.output_folder == config.output_folder
    &&& job.watch_folder == config.watch_folder
    &&& job.input_file_action == action
}

/// The conversion job for a file, if one of the watcher's rules matches it.
pub fn create_job(
    file_path: &str,
    file_name: &str,
    watch_config: &WatchConfig,
    watcher_name: &str,
    input_file_action: InputFileAction,
) -> (r: Option<ConversionJob>)
    ensures
        match matching_rule_index(watch_config.watch_type, file_path@) {
            Some(j) => r matches Some(job) && job_for(
                job,
                file_path@,
                file_name@,
                *watch_config,
                watcher_name@,
                input_file_action,
                j,
            ),
            None => r is None,
        },
{
    match find_matching_rule(file_path, &watch_config.watch_type) {
        Some(rule) => Some(
            ConversionJob {
                watcher_name: owned(watcher_name),
                file_name: owned(file_name),
                file_path: owned(file_path),
                matched_rule: rule,
                output_folder: watch_config.output_folder.clone(),
                watch_folder: watch_config.watch_folder.clone(),
                input_file_action,
            },
        ),
        None => None,
    }
}

// ---------------------------------------------------------------------------
// Directories of a watcher
// ---------------------------------------------------------------------------

/// The routing folder `->{name}` inside the watch folder.
pub open spec fn route_folder(watch_folder: Seq<char>, name: Seq<char>) -> Seq<char> {
    join(watch_folder, seq!['-', '>'] + name)
}

/// The names of the declared subfolders.
pub open spec fn declared_names(sfs: Seq<Subfolder>) -> Seq<Seq<char>> {
    sfs.map_values(|s: Subfolder| s.name@)
}

/// The subfolders named by the first `n` rules and not declared, in rule
/// order.
pub open spec fn undeclared_rule_folders(t: WatchType, declared: Seq<Seq<char>>, n: nat) -> Seq<Seq<char>>
    decreases n,
{
    if n == 0 {
        Seq::empty()
    } else {
        let prev = undeclared_rule_folders(t, declared, (n - 1) as nat);
        match rule_subfolder(t, n - 1) {
            Some(s) => if declared.contains(s@) {
                prev
            } else {
                prev.push(s@)
            },
            None => prev,
        }
    }
}

/// The directories a watcher needs, in the order they are created: the
/// watch and output folders, a `->{name}` folder for each declared
/// subfolder, then one for each rule subfolder not declared.
pub open spec fn folder_plan(w: WatchConfig) -> Seq<Seq<char>> {
    let declared = declared_names(w.subfolders@);
    let extra = undeclared_rule_folders(w.watch_type, declared, rule_count(w.watch_type));
    seq![w.watch_folder@, w.output_folder@] + declared.map_values(
        |n: Seq<char>| route_folder(w.watch_folder@, n),
    ) + extra.map_values(|n: Seq<char>| route_folder(w.watch_folder@, n))
}

/// The path of the routing folder `->{name}`.
fn route_path(watch_folder: &str, name: &str) -> (r: String)
    ensures
        r@ == route_folder(watch_folder@, name@),
{
    let mut sub = String::new();
    push_char(&mut sub, '-');
    push_char(&mut sub, '>');
    append(&mut sub, name);
    assert(sub@ =~= seq!['-', '>'] + name@);
    join_path(watch_folder, sub.as_str())
}

/// Whether one of the declared subfolders is named `name`.
fn is_declared(sfs: &Vec<Subfolder>, name: &str) -> (r: bool)
    ensures
        r == declared_names(sfs@).contains(name@),
{
    let mut i: usize = 0;
    while i < sfs.len()
        invariant
            i <= sfs@.len(),
            forall|l: int| 0 <= l < i ==> sfs@[l].name@ != name@,
        decreases sfs@.len() - i,
    {
        if str_eq(sfs[i].name.as_str(), name) {
            assert(declared_names(sfs@)[i as int] == name@);
            return true;
        }
        i = i + 1;
    }
    proof {
        if declared_names(sfs@).contains(name@) {
            let k = choose|k: int| 0 <= k < declared_names(sfs@).len() && declared_names(sfs@)[k] == name@;
            assert(sfs@[k].name@ == name@);
        }
    }
    false
}

/// The directories `create_folders` makes for a watcher, in order.
pub fn create_folders_plan(watch_config: &WatchConfig) -> (r: Vec<String>)
    ensures
        views(r@) == folder_plan(*watch_config),
{
    let ghost w = *watch_config;
    let ghost declared = declared_names(w.subfolders@);
    let mut out: Vec<String> = Vec::new();
    out.push(watch_config.watch_folder.clone());
    out.push(watch_config.output_folder.clone());
    assert(views(out@) =~= seq![w.watch_folder@, w.output_folder@]);
    let sfs = &watch_config.subfolders;
    let mut i: usize = 0;
    while i < sfs.len()
        invariant
            w == *watch_config,
            sfs@ == w.subfolders@,
            declared == declared_names(w.subfolders@),
            i <= sfs@.len(),
            views(out@) == seq![w.watch_folder@, w.output_folder@] + declared.take(i as int).map_values(
                |n: Seq<char>| route_folder(w.watch_folder@, n),
            ),
        decreases sfs@.len() - i,
    {
        let ghost before = out@;
        let p = route_path(watch_config.watch_folder.as_str(), sfs[i].name.as_str());
        out.push(p);
        proof {
            assert(declared[i as int] == sfs@[i as int].name@);
            assert(declared.take(i + 1) =~= declared.take(i as int).push(declared[i as int]));
            assert(views(out@) =~= views(before).push(p@));
            assert(declared.take(i + 1).map_values(|n: Seq<char>| route_folder(w.watch_folder@, n))
                =~= declared.take(i as int).map_values(|n: Seq<char>| route_folder(w.watch_folder@, n)).push(
                route_folder(w.watch_folder@, declared[i as int]),
            ));
        }
        i = i + 1;
    }
    assert(declared.take(sfs@.len() as int) =~= declared);
    let ghost head = views(out@);
    let t = &watch_config.watch_type;
    let n = count_of(t);
    let mut k: usize = 0;
    while k < n
        invariant
            w == *watch_config,
            *t == w.watch_type,
            n == rule_count(w.watch_type),
            declared == declared_names(w.subfolders@),
            k <= n,
            views(out@) == head + undeclared_rule_folders(w.watch_type, declared, k as nat).map_values(
                |m: Seq<char>| route_folder(w.watch_folder@, m),
            ),
        decreases n - k,
    {
        let ghost before = out@;
        let ghost prev = undeclared_rule_folders(w.watch_type, declared, k as nat);
        match subfolder_of(t, k) {
            Some(s) => {
                if !is_declared(&watch_config.subfolders, s.as_str()) {
                    let p = route_path(watch_config.watch_folder.as_str(), s.as_str());
                    out.push(p);
                    proof {
                        assert(views(out@) =~= views(before).push(p@));
                        assert(prev.push(s@).map_values(|m: Seq<char>| route_folder(w.watch_folder@, m))
                            =~= prev.map_values(|m: Seq<char>| route_folder(w.watch_folder@, m)).push(p@));
                    }
                }
            },
            None => {},
        }
        k = k + 1;
    }
    out
}

// ---------------------------------------------------------------------------
// Stability tracking
// ---------------------------------------------------------------------------

/// Milliseconds from `from` to `now`, zero if `now` is earlier.
pub open spec fn elapsed_ms(now: u64, from: u64) -> u64 {
    if now >= from {
        (now - from) as u64
    } else {
        0
    }
}

/// The name of a watcher's own configuration file: `{name}.yaml`.
pub open spec fn config_file_name(name: Seq<char>) -> Seq<char> {
    name + ".yaml"@
}

/// Marker files the monitor never converts: `.invalid`, `.done`, `.error`.
pub open spec fn is_marker_name(n: Seq<char>) -> bool {
    ends_with(n, ".invalid"@) || ends_with(n, ".done"@) || ends_with(n, ".error"@)
}

/// What observing a file of size `size` at `now_ms` does to the tracked
/// states, and whether the monitor acts on it (promotes or converts it).
/// A skipped file changes nothing; an untracked one is tracked as first
/// seen now; a size change restarts its stability wait, recording it as
/// first seen now with the new size; a file is acted on once it kept its
/// size for `stable_ms` since then (a file still being converted waits),
/// and is then forgotten.
pub open spec fn observe_step(
    m: Map<Seq<char>, (u64, u64)>,
    key: Seq<char>,
    size: u64,
    now_ms: u64,
    stable_ms: u64,
    skipped: bool,
    is_cfg: bool,
    in_progress: bool,
) -> (Map<Seq<char>, (u64, u64)>, bool) {
    if skipped {
        (m, false)
    } else if !m.contains_key(key) {
        (m.insert(key, (now_ms, size)), false)
    } else if size != m[key].1 {
        (m.insert(key, (now_ms, size)), false)
    } else if elapsed_ms(now_ms, m[key].0) < stable_ms {
        (m, false)
    } else if !is_cfg && in_progress {
        (m, false)
    } else {
        (m.remove(key), true)
    }
}

/// After the monitor acts on a file, the next observation of that file
/// starts a new stability wait: it is not acted on again at once.
pub proof fn law_act_once(
    m: Map<Seq<char>, (u64, u64)>,
    key: Seq<char>,
    size: u64,
    now_ms: u64,
    stable_ms: u64,
    skipped: bool,
    is_cfg: bool,
    in_progress: bool,
    next_size: u64,
    next_ms: u64,
    next_stable_ms: u64,
    next_skipped: bool,
    next_in_progress: bool,
)
    requires
        observe_step(m, key, size, now_ms, stable_ms, skipped, is_cfg, in_progress).1,
    ensures
        !observe_step(
            observe_step(m, key, size, now_ms, stable_ms, skipped, is_cfg, in_progress).0,
            key,
            next_size,
            next_ms,
            next_stable_ms,
            next_skipped,
            is_cfg,
            next_in_progress,
        ).1,
{
}

/// A file whose size differs from the size last recorded is never acted on.
pub proof fn law_growing_file_waits(
    m: Map<Seq<char>, (u64, u64)>,
    key: Seq<char>,
    size: u64,
    now_ms: u64,
    stable_ms: u64,
    skipped: bool,
    is_cfg: bool,
    in_progress: bool,
)
    requires
        m.contains_key(key),
        m[key].1 != size,
    ensures
        !observe_step(m, key, size, now_ms, stable_ms, skipped, is_cfg, in_progress).1,
{
}

/// A size change restarts the stability wait: the file is recorded as first
/// seen at the time of the change, with its new size.
pub proof fn law_size_change_restarts_wait(
    m: Map<Seq<char>, (u64, u64)>,
    key: Seq<char>,
    size: u64,
    now_ms: u64,
    stable_ms: u64,
    is_cfg: bool,
    in_progress: bool,
)
    requires
        m.contains_key(key),
        m[key].1 != size,
    ensures
        observe_step(m, key, size, now_ms, stable_ms, false, is_cfg, in_progress).0 == m.insert(
            key,
            (now_ms, size),
        ),
{
}

/// `after` is the tracked files `before` once cleaned up at `now_ms`: every
/// file kept was first seen less than ten stable periods ago and reported
/// present, and is kept as it was; every file dropped was first seen ten or
/// more stable periods ago or reported absent.
pub open spec fn cleaned<F: Fn(&String) -> bool>(
    before: Map<Seq<char>, (u64, u64)>,
    after: Map<Seq<char>, (u64, u64)>,
    now_ms: u64,
    stable_ms: u64,
    is_present: F,
) -> bool {
    &&& forall|p: Seq<char>| #[trigger] after.contains_key(p) ==> before.contains_key(p) && after[p] == before[p]
    &&& forall|p: Seq<char>| #[trigger] after.contains_key(p) ==> elapsed_ms(now_ms, before[p].0) < 10 * stable_ms
        && reported_existing(is_present, p)
    &&& forall|p: Seq<char>| #[trigger] before.contains_key(p) && !after.contains_key(p) ==> (elapsed_ms(
        now_ms,
        before[p].0,
    ) >= 10 * stable_ms || reported_free(is_present, p))
}

/// With a probe that answers from a fixed set of present files, a cleanup
/// keeps exactly the tracked files that are present and were first seen
/// less than ten stable periods ago, unchanged, and adds none.
pub proof fn law_cleanup_keeps_present_recent<F: Fn(&String) -> bool>(
    before: Map<Seq<char>, (u64, u64)>,
    after: Map<Seq<char>, (u64, u64)>,
    now_ms: u64,
    stable_ms: u64,
    is_present: F,
    present: Set<Seq<char>>,
)
    requires
        cleaned(before, after, now_ms, stable_ms, is_present),
        answers_from(is_present, present),
    ensures
        after == before.restrict(
            Set::new(|p: Seq<char>| present.contains(p) && elapsed_ms(now_ms, before[p].0) < 10 * stable_ms),
        ),
{
    assert forall|p: Seq<char>| #[trigger] reported_existing(is_present, p) implies present.contains(p) by {
        let s = choose|s: String| s@ == p && call_ensures(is_present, (&s,), true);
    }
    assert forall|p: Seq<char>| #[trigger] reported_free(is_present, p) implies !present.contains(p) by {
        let s = choose|s: String| s@ == p && call_ensures(is_present, (&s,), false);
    }
    let keep = Set::new(|p: Seq<char>| present.contains(p) && elapsed_ms(now_ms, before[p].0) < 10 * stable_ms);
    assert forall|p: Seq<char>| before.contains_key(p) && keep.contains(p) implies #[trigger] after.contains_key(p) by {
        if !after.contains_key(p) {
            assert(elapsed_ms(now_ms, before[p].0) >= 10 * stable_ms || reported_free(is_present, p));
        }
    }
    assert(after =~= before.restrict(keep));
}

/// What the monitor does with a file it observed.
#[derive(Debug)]
pub enum ScanOutcome {
    /// Nothing, for now.
    Nothing,
    /// The watcher's configuration file is stable: validate and promote it.
    PromoteConfig,
    /// The file is stable and matched a rule: convert it.
    Dispatch(ConversionJob),
}

/// The files seen in a watch folder, by path: when each was first seen (in
/// milliseconds of a monotonic clock) and the size it last had.
pub struct FileTracker {
    entries: Keyed<(u64, u64)>,
}

impl FileTracker {
    /// The tracked files, from path to (first seen, last size).
    pub closed spec fn view(&self) -> Map<Seq<char>, (u64, u64)> {
        self.entries.view()
    }

    /// No path is tracked twice.
    pub closed spec fn wf(&self) -> bool {
        self.entries.wf()
    }

    /// An empty tracker.
    pub fn new() -> (r: Self)
        ensures
            r.wf(),
            r.view() == Map::<Seq<char>, (u64, u64)>::empty(),
    {
        FileTracker { entries: Keyed::new() }
    }

    /// A create or modify event for `path`, whose size is `size`: the file
    /// is (re)tracked as first seen now.
    pub fn note_event(&mut self, path: &str, size: u64, now_ms: u64)
        requires
            old(self).wf(),
        ensures
            final(self).wf(),
            final(self).view() == old(self).view().insert(path@, (now_ms, size)),
    {
        self.entries.insert(path, (now_ms, size));
    }

    /// One file found by a scan of the watch folder. A file is acted on
    /// only once it was tracked with the same size it has now and at least
    /// `stable_ms` have passed since it was first seen; a size change
    /// restarts the wait, recording the file as first seen now with its new
    /// size. The watcher's own
    /// `{name}.yaml` is promoted when stable unless an invalid marker
    /// exists; marker files are ignored; a stable file already being
    /// converted is left tracked; any other stable file is dispatched if a
    /// rule matches it, and forgotten either way.
    pub fn observe(
        &mut self,
        path: &str,
        file_name: &str,
        size: u64,
        now_ms: u64,
        stable_ms: u64,
        config: &WatchConfig,
        watcher_name: &str,
        invalid_marker_exists: bool,
        in_progress: bool,
        input_file_action: InputFileAction,
    ) -> (r: ScanOutcome)
        requires
            old(self).wf(),
        ensures
            final(self).wf(),
            ({
                let is_cfg = file_name@ == config_file_name(config.name@);
                let skipped = (is_cfg && invalid_marker_exists) || (!is_cfg && is_marker_name(file_name@));
                let step = observe_step(
                    old(self).view(),
                    path@,
                    size,
                    now_ms,
                    stable_ms,
                    skipped,
                    is_cfg,
                    in_progress,
                );
                &&& final(self).view() == step.0
                &&& !step.1 ==> r is Nothing
                &&& step.1 && is_cfg ==> r is PromoteConfig
                &&& step.1 && !is_cfg ==> match matching_rule_index(config.watch_type, path@) {
                    Some(j) => r matches ScanOutcome::Dispatch(job) && job_for(
                        job,
                        path@,
                        file_name@,
                        *config,
                        watcher_name@,
                        input_file_action,
                        j,
                    ),
                    None => r is Nothing,
                }
            }),
    {
        let mut cfg_name = owned(config.name.as_str());
        append(&mut cfg_name, ".yaml");
        let is_cfg = str_eq(file_name, cfg_name.as_str());
        if is_cfg && invalid_marker_exists {
            return ScanOutcome::Nothing;
        }
        if !is_cfg && (has_suffix(file_name, ".invalid") || has_suffix(file_name, ".done") || has_suffix(
            file_name,
            ".error",
        )) {
            return ScanOutcome::Nothing;
        }
        let current = match self.entries.get(path) {
            Some(state) => Some(*state),
            None => None,
        };
        match current {
            None => {
                self.entries.insert(path, (now_ms, size));
                ScanOutcome::Nothing
            },
            Some((first, last)) => {
                if size != last {
                    self.entries.insert(path, (now_ms, size));
                    return ScanOutcome::Nothing;
                }
                let elapsed = if now_ms >= first {
                    now_ms - first
                } else {
                    0
                };
                if elapsed < stable_ms {
                    return ScanOutcome::Nothing;
                }
                if is_cfg {
                    self.entries.remove(path);
                    return ScanOutcome::PromoteConfig;
                }
                if in_progress {
                    return ScanOutcome::Nothing;
                }
                let job = create_job(path, file_name, config, watcher_name, input_file_action);
                self.entries.remove(path);
                match job {
                    Some(j) => ScanOutcome::Dispatch(j),
                    None => ScanOutcome::Nothing,
                }
            },
        }
    }

    /// Drops the files that no longer exist (as `is_present` reports) and those
    /// first seen ten or more stable periods ago; the others are kept as
    /// they were.
    pub fn cleanup_stale_entries<F: Fn(&String) -> bool>(&mut self, now_ms: u64, stable_ms: u64, is_present: F)
        requires
            old(self).wf(),
            forall|s: &String| call_requires(is_present, (s,)),
        ensures
            final(self).wf(),
            cleaned(old(self).view(), final(self).view(), now_ms, stable_ms, is_present),
    {
        let ghost before = self.view();
        proof {
            self.entries.lemma_pairs_view();
        }
        let mut stale: Vec<String> = Vec::new();
        {
            let entries = self.entries.entries();
            let ghost ps = entries@;
            let mut i: usize = 0;
            while i < entries.len()
                invariant
                    ps == entries@,
                    distinct_keys(ps),
                    pairs_map(ps) == before,
                    i <= ps.len(),
                    forall|s: &String| call_requires(is_present, (s,)),
                    forall|k: Seq<char>| #[trigger] views(stale@).to_set().contains(k) ==> before.contains_key(k) && (
                        elapsed_ms(now_ms, before[k].0) >= 10 * stable_ms || reported_free(is_present, k)),
                    forall|l: int|
                        0 <= l < i && !views(stale@).to_set().contains(#[trigger] ps[l].0@) ==> elapsed_ms(
                            now_ms,
                            ps[l].1.0,
                        ) < 10 * stable_ms && reported_existing(is_present, ps[l].0@),
                decreases ps.len() - i,
            {
                let alive = is_present(&entries[i].0);
                let first = entries[i].1.0;
                let elapsed: u64 = if now_ms >= first {
                    now_ms - first
                } else {
                    0
                };
                let young = (elapsed as u128) < (stable_ms as u128) * 10;
                let ghost key = ps[i as int].0@;
                proof {
                    lemma_pairs_lookup(ps, i as int);
                    if alive {
                        assert(reported_existing(is_present, key));
                    } else {
                        assert(reported_free(is_present, key));
                    }
                }
                if !(alive && young) {
                    let ghost prev = views(stale@);
                    stale.push(owned(entries[i].0.as_str()));
                    proof {
                        assert(views(stale@) =~= prev.push(key));
                        prev.lemma_push_to_set_commute(key);
                    }
                }
                i = i + 1;
            }
            proof {
                assert forall|p: Seq<char>|
                    #[trigger] before.contains_key(p) && !views(stale@).to_set().contains(p) implies elapsed_ms(
                        now_ms,
                        before[p].0,
                    ) < 10 * stable_ms && reported_existing(is_present, p) by {
                    let l = choose|l: int| key_at(ps, p, l);
                    assert(key_at(ps, p, l));
                    lemma_pairs_lookup(ps, l);
                    assert(!views(stale@).to_set().contains(ps[l].0@));
                }
            }
        }
        let ghost gone = views(stale@).to_set();
        let mut j: usize = 0;
        while j < stale.len()
            invariant
                self.wf(),
                j <= stale@.len(),
                gone == views(stale@).to_set(),
                self.view() == before.remove_keys(views(stale@).take(j as int).to_set()),
            decreases stale@.len() - j,
        {
            self.entries.remove(stale[j].as_str());
            proof {
                let t = views(stale@).take(j as int);
                assert(views(stale@).take(j + 1) =~= t.push(stale@[j as int]@));
                t.lemma_push_to_set_commute(stale@[j as int]@);
                assert(self.view() =~= before.remove_keys(views(stale@).take(j + 1).to_set()));
            }
            j = j + 1;
        }
        proof {
            assert(views(stale@).take(stale@.len() as int) =~= views(stale@));
            assert(self.view() == before.remove_keys(gone));
        }
    }
}

// ---------------------------------------------------------------------------
// Promoting a watcher's configuration file
// ---------------------------------------------------------------------------

/// Why a configuration file dropped into a watch folder is not promoted.
#[derive(Debug, Clone, PartialEq, Eq)]
pub enum PromotionRefusal {
    /// A secret is configured and the file carries another.
    SecretMismatch,
    /// The file's watcher type differs from the watcher's.
    TypeMismatch { expected: String, got: String },
}

/// Checks a parsed configuration file before it replaces the watcher's
/// rules: with a secret configured the file must carry it, and the types
/// must agree.
pub fn check_promotion(global_secret: &str, manifest: &WatchConfig, embedded: &EmbeddedConfig) -> (r: Result<
    (),
    PromotionRefusal,
>)
    ensures
        global_secret@.len() > 0 && embedded.secret@ != global_secret@ ==> r == Err::<(), PromotionRefusal>(
            PromotionRefusal::SecretMismatch,
        ),
        !(global_secret@.len() > 0 && embedded.secret@ != global_secret@) ==> if same_kind(
            manifest.watch_type,
            embedded.watch_type,
        ) {
            r is Ok
        } else {
            r matches Err(PromotionRefusal::TypeMismatch { expected, got }) && expected@ == kind_label_of(
                manifest.watch_type,
            ) && got@ == kind_label_of(embedded.watch_type)
        },
{
    if !global_secret.is_empty() && !str_eq(embedded.secret.as_str(), global_secret) {
        return Err(PromotionRefusal::SecretMismatch);
    }
    let expected = manifest.watch_type.type_label();
    let got = embedded.watch_type.type_label();
    if !str_eq(expected, got) {
        proof {
            reveal_strlit("video");
            reveal_strlit("image");
            reveal_strlit("audio");
            reveal_strlit("pdf");
            reveal_strlit("document");
            reveal_strlit("custom");
        }
        assert(!same_kind(manifest.watch_type, embedded.watch_type));
        return Err(PromotionRefusal::TypeMismatch { expected: owned(expected), got: owned(got) });
    }
    proof {
        lemma_label_determines_kind(manifest.watch_type, embedded.watch_type);
    }
    Ok(())
}

/// The name a watcher's monitor reports under: `watcher_{name}`.
pub fn monitor_name(config: &WatchConfig) -> (r: String)
    ensures
        r@ == "watcher_"@ + config.name@,
{
    let mut r = owned("watcher_");
    append(&mut r, config.name.as_str());
    r
}

/// Where promoting a watcher's configuration file found at `config_path`
/// puts things: the copy `config/watchs/{name}.yaml`, the backup the file
/// is renamed to (extension `yaml.old`), and the stale marker removed
/// (extension `yaml.invalid`).
pub fn promotion_targets(config_path: &str, watcher_name: &str) -> (r: (String, String, String))
    ensures
        r.0@ == join("config/watchs"@, watcher_name@ + ".yaml"@),
        r.1@ == with_extension(config_path@, "yaml.old"@),
        r.2@ == with_extension(config_path@, "yaml.invalid"@),
{
    let mut file = owned(watcher_name);
    append(&mut file, ".yaml");
    proof {
        reveal_strlit("yaml.old");
        reveal_strlit("yaml.invalid");
    }
    (
        join_path("config/watchs", file.as_str()),
        path_with_extension(config_path, "yaml.old"),
        path_with_extension(config_path, "yaml.invalid"),
    )
}

/// The marker that blocks a watcher's configuration file:
/// `{watch_dir}/{name}.invalid`.
pub fn invalid_marker_path(watch_dir: &str, name: &str) -> (r: String)
    ensures
        r@ == join(watch_dir@, name@ + ".invalid"@),
{
    let mut m = owned(name);
    append(&mut m, ".invalid");
    join_path(watch_dir, m.as_str())
}

} // verus!
