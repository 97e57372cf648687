//! Merging per-watcher configuration files into the watchers of the main
//! configuration.
use vstd::prelude::*;
use crate::config::embedded::EmbeddedConfig;
use crate::config::watch::{kind_label_of, same_kind, Subfolder, WatchConfig, WatchType};
use crate::paths::{file_stem, path_file_stem};
use crate::keyed::{distinct_keys, key_at, pairs_map, Keyed};
use crate::text::{copy_opt, ends_with, has_suffix, list_contains, owned, str_eq, views};

verus! {

/// Whether an override has the same watcher type as the watcher it
/// overrides.
pub fn types_match(manifesto: &WatchType, override_: &WatchType) -> (r: bool)
    ensures
        r == same_kind(*manifesto, *override_),
{
    match (manifesto, override_) {
        (WatchType::Video { .. }, WatchType::Video { .. }) => true,
        (WatchType::Image { .. }, WatchType::Image { .. }) => true,
        (WatchType::Audio { .. }, WatchType::Audio { .. }) => true,
        (WatchType::Pdf { .. }, WatchType::Pdf { .. }) => true,
        (WatchType::Document { .. }, WatchType::Document { .. }) => true,
        (WatchType::Custom { .. }, WatchType::Custom { .. }) => true,
        _ => false,
    }
}

/// Why an override file was refused.
#[derive(Debug, Clone, PartialEq, Eq)]
pub enum EmbedError {
    /// A secret is configured and the file carries another.
    SecretMismatch,
    /// The file's path has no file stem to name a watcher.
    InvalidFilename,
    /// No watcher of the main configuration has the file's name.
    NoManifesto { name: String },
    /// The file's watcher type differs from the watcher's.
    TypeMismatch { manifesto: String, override_: String },
}

/// Watcher `k` is the first of `cfgs` named `name`.
pub open spec fn first_named(cfgs: Seq<WatchConfig>, name: Seq<char>, k: int) -> bool {
    &&& 0 <= k < cfgs.len()
    &&& cfgs[k].name@ == name
    &&& forall|l: int| 0 <= l < k ==> (#[trigger] cfgs[l]).name@ != name
}

proof fn lemma_first_named_unique(cfgs: Seq<WatchConfig>, name: Seq<char>, k: int)
    requires
        first_named(cfgs, name, k),
    ensures
        (choose|j: int| first_named(cfgs, name, j)) == k,
{
    let j = choose|j: int| first_named(cfgs, name, j);
    assert(first_named(cfgs, name, j));
    if j < k {
        assert(cfgs[j].name@ != name);
    } else if k < j {
        assert(cfgs[k].name@ != name);
    }
}

/// The position of the first watcher named `name`.
fn position_named(cfgs: &Vec<WatchConfig>, name: &str) -> (r: Option<usize>)
    ensures
        r matches Some(k) ==> first_named(cfgs@, name@, k as int),
        r is None ==> !exists|k: int| first_named(cfgs@, name@, k),
{
    let mut i: usize = 0;
    while i < cfgs.len()
        invariant
            i <= cfgs@.len(),
            forall|l: int| 0 <= l < i ==> (#[trigger] cfgs@[l]).name@ != name@,
        decreases cfgs@.len() - i,
    {
        if str_eq(cfgs[i].name.as_str(), name) {
            return Some(i);
        }
        i = i + 1;
    }
    proof {
        if exists|k: int| first_named(cfgs@, name@, k) {
            let k = choose|k: int| first_named(cfgs@, name@, k);
            assert(cfgs@[k].name@ == name@);
        }
    }
    None
}

/// The output folder after an override: the override's, unless it is empty.
pub open spec fn overridden_output(base: String, over: String) -> String {
    if over@.len() == 0 {
        base
    } else {
        over
    }
}

/// A copy of a list of subfolders.
fn copy_subfolders(v: &Vec<Subfolder>) -> (r: Vec<Subfolder>)
    ensures
        r@ == v@,
{
    let mut out: Vec<Subfolder> = Vec::new();
    let mut i: usize = 0;
    while i < v.len()
        invariant
            i <= v@.len(),
            out@ == v@.take(i as int),
        decreases v@.len() - i,
    {
        let s = Subfolder { name: v[i].name.clone(), description: copy_opt(&v[i].description) };
        out.push(s);
        proof {
            assert(v@.take(i + 1) =~= v@.take(i as int).push(v@[i as int]));
        }
        i = i + 1;
    }
    assert(v@.take(v@.len() as int) =~= v@);
    out
}

/// `r` is what merging the override `embedded`, read from `config_path`,
/// gives: with a secret configured, the file must carry the same secret; the
/// watcher is the first of `main_configs` named by the file's stem; the
/// types must agree. The result is that watcher with the override's rules,
/// and with the override's output folder unless it is empty.
pub open spec fn merged_as(
    main_configs: Seq<WatchConfig>,
    secret: Seq<char>,
    config_path: Seq<char>,
    embedded: EmbeddedConfig,
    r: Result<WatchConfig, EmbedError>,
) -> bool {
    if secret.len() > 0 && embedded.secret@ != secret {
        r == Err::<WatchConfig, EmbedError>(EmbedError::SecretMismatch)
    } else {
        match file_stem(config_path) {
            None => r == Err::<WatchConfig, EmbedError>(EmbedError::InvalidFilename),
            Some(stem) => if !exists|k: int| first_named(main_configs, stem, k) {
                r matches Err(EmbedError::NoManifesto { name }) && name@ == stem
            } else {
                let m = main_configs[choose|k: int| first_named(main_configs, stem, k)];
                if !same_kind(m.watch_type, embedded.watch_type) {
                    r matches Err(EmbedError::TypeMismatch { manifesto, override_ })
                        && manifesto@ == kind_label_of(m.watch_type)
                        && override_@ == kind_label_of(embedded.watch_type)
                } else {
                    r matches Ok(w) && w.name == m.name && w.watch_folder == m.watch_folder
                        && w.subfolders@ == m.subfolders@ && w.watch_type == embedded.watch_type
                        && w.output_folder == overridden_output(m.output_folder, embedded.output_folder)
                }
            },
        }
    }
}

/// Merges the override file at `config_path` into the watcher it names
/// (see `merged_as`).
pub fn merge_embedded(
    main_configs: &Vec<WatchConfig>,
    secret: &str,
    config_path: &str,
    embedded: EmbeddedConfig,
) -> (r: Result<WatchConfig, EmbedError>)
    ensures
        merged_as(main_configs@, secret@, config_path@, embedded, r),
{
    if !secret.is_empty() && !str_eq(embedded.secret.as_str(), secret) {
        return Err(EmbedError::SecretMismatch);
    }
    let stem = match path_file_stem(config_path) {
        Some(s) => s,
        None => {
            return Err(EmbedError::InvalidFilename);
        },
    };
    match position_named(main_configs, stem.as_str()) {
        None => Err(EmbedError::NoManifesto { name: stem }),
        Some(k) => {
            proof {
                lemma_first_named_unique(main_configs@, stem@, k as int);
            }
            let m = &main_configs[k];
            if !types_match(&m.watch_type, &embedded.watch_type) {
                return Err(
                    EmbedError::TypeMismatch {
                        manifesto: owned(m.watch_type.type_label()),
                        override_: owned(embedded.watch_type.type_label()),
                    },
                );
            }
            let EmbeddedConfig { secret: _, output_folder, watch_type } = embedded;
            let out = if output_folder.as_str().is_empty() {
                m.output_folder.clone()
            } else {
                output_folder
            };
            Ok(
                WatchConfig {
                    name: m.name.clone(),
                    watch_folder: m.watch_folder.clone(),
                    output_folder: out,
                    subfolders: copy_subfolders(&m.subfolders),
                    watch_type,
                },
            )
        },
    }
}

/// `cfgs` after one override: the first watcher with the override's name
/// takes its rules, and its output folder unless that is empty.
pub open spec fn apply_override(cfgs: Seq<WatchConfig>, o: WatchConfig) -> Seq<WatchConfig> {
    if exists|k: int| first_named(cfgs, o.name@, k) {
        let k = choose|k: int| first_named(cfgs, o.name@, k);
        cfgs.update(
            k,
            WatchConfig {
                watch_type: o.watch_type,
                output_folder: overridden_output(cfgs[k].output_folder, o.output_folder),
                ..cfgs[k]
            },
        )
    } else {
        cfgs
    }
}

/// `cfgs` after the overrides, applied in order.
pub open spec fn apply_overrides(cfgs: Seq<WatchConfig>, os: Seq<WatchConfig>) -> Seq<WatchConfig>
    decreases os.len(),
{
    if os.len() == 0 {
        cfgs
    } else {
        apply_override(apply_overrides(cfgs, os.drop_last()), os.last())
    }
}

/// The watchers of the main configuration with the loaded overrides
/// applied in order.
pub fn merge_all(main_configs: Vec<WatchConfig>, overrides: Vec<WatchConfig>) -> (r: Vec<WatchConfig>)
    ensures
        r@ == apply_overrides(main_configs@, overrides@),
{
    let ghost os = overrides@;
    let mut result = main_configs;
    let mut rest = overrides;
    let n = rest.len();
    let mut i: usize = 0;
    while i < n
        invariant
            n == os.len(),
            i <= n,
            rest@ == os.skip(i as int),
            result@ == apply_overrides(main_configs@, os.take(i as int)),
        decreases n - i,
    {
        let o = rest.remove(0);
        proof {
            assert(o == os[i as int]);
            assert(rest@ =~= os.skip(i + 1));
            assert(os.take(i + 1).drop_last() =~= os.take(i as int));
            assert(os.take(i + 1).last() == os[i as int]);
        }
        let ghost before = result@;
        match position_named(&result, o.name.as_str()) {
            Some(k) => {
                proof {
                    lemma_first_named_unique(before, o.name@, k as int);
                }
                let old = result.remove(k);
                let WatchConfig { name: _, watch_folder: _, output_folder: o_out, subfolders: _, watch_type: o_type } = o;
                let WatchConfig { name, watch_folder, output_folder, subfolders, watch_type: _ } = old;
                let out = if o_out.as_str().is_empty() {
                    output_folder
                } else {
                    o_out
                };
                let merged = WatchConfig { name, watch_folder, output_folder: out, subfolders, watch_type: o_type };
                result.insert(k, merged);
                proof {
                    assert(result@ =~= apply_override(before, os[i as int]));
                }
            },
            None => {
                proof {
                    assert(result@ == apply_override(before, os[i as int]));
                }
            },
        }
        i = i + 1;
    }
    assert(os.take(n as int) =~= os);
    result
}


/// Whether a file in the override directory is an override file: its name
/// ends in `.yaml` or `.yml`.
pub fn is_override_file_name(name: &str) -> (r: bool)
    ensures
        r == (ends_with(name@, ".yaml"@) || ends_with(name@, ".yml"@)),
{
    has_suffix(name, ".yaml") || has_suffix(name, ".yml")
}

/// A file is read when it was not loaded, or was loaded at another
/// modification stamp.
pub open spec fn load_needed(known: Map<Seq<char>, (WatchConfig, u64)>, path: Seq<char>, modified: u64) -> bool {
    !(known.contains_key(path) && known[path].1 == modified)
}

/// A file just recorded is not read again while its stamp stays the same,
/// is read again once the stamp changes, and recording it leaves whether
/// any other file is read unchanged.
pub proof fn law_record_then_load(
    known: Map<Seq<char>, (WatchConfig, u64)>,
    path: Seq<char>,
    merged: WatchConfig,
    modified: u64,
    other_path: Seq<char>,
    other_stamp: u64,
)
    ensures
        !load_needed(known.insert(path, (merged, modified)), path, modified),
        other_stamp != modified ==> load_needed(known.insert(path, (merged, modified)), path, other_stamp),
        other_path != path ==> load_needed(known.insert(path, (merged, modified)), other_path, other_stamp)
            == load_needed(known, other_path, other_stamp),
{
}

/// A file dropped because it is no longer found is read again when it
/// reappears, whatever its stamp.
pub proof fn law_forgotten_is_reloaded(
    known: Map<Seq<char>, (WatchConfig, u64)>,
    found: Set<Seq<char>>,
    path: Seq<char>,
    stamp: u64,
)
    requires
        !found.contains(path),
    ensures
        load_needed(known.restrict(found), path, stamp),
{
}

/// The override files a scanner has loaded, by path, each with the merged
/// watcher and the modification stamp it was read at; and what merging
/// needs (the secret and the main configuration's watchers).
pub struct EmbeddedScanner {
    watchs_dir: String,
    secret: String,
    known_configs: Keyed<(WatchConfig, u64)>,
    main_configs: Vec<WatchConfig>,
}

impl EmbeddedScanner {
    /// The loaded files: path to merged watcher and stamp.
    pub closed spec fn known(&self) -> Map<Seq<char>, (WatchConfig, u64)> {
        self.known_configs.view()
    }

    /// The loaded files in the order they were first loaded.
    pub closed spec fn loaded(&self) -> Seq<(String, (WatchConfig, u64))> {
        self.known_configs.pairs()
    }

    pub closed spec fn dir(&self) -> Seq<char> {
        self.watchs_dir@
    }

    pub closed spec fn secret_spec(&self) -> Seq<char> {
        self.secret@
    }

    pub closed spec fn mains(&self) -> Seq<WatchConfig> {
        self.main_configs@
    }

    /// No path is loaded twice.
    pub closed spec fn wf(&self) -> bool {
        self.known_configs.wf()
    }

    /// A scanner of `watchs_dir` that has loaded nothing.
    pub fn new(watchs_dir: String, secret: String, main_configs: Vec<WatchConfig>) -> (r: Self)
        ensures
            r.wf(),
            r.known() == Map::<Seq<char>, (WatchConfig, u64)>::empty(),
            r.dir() == watchs_dir@,
            r.secret_spec() == secret@,
            r.mains() == main_configs@,
    {
        EmbeddedScanner { watchs_dir, secret, known_configs: Keyed::new(), main_configs }
    }

    /// The directory the override files are read from.
    pub fn watchs_dir(&self) -> (r: &str)
        ensures
            r@ == self.dir(),
    {
        self.watchs_dir.as_str()
    }

    /// The main configuration's watchers.
    pub fn main_configs(&self) -> (r: &Vec<WatchConfig>)
        ensures
            r@ == self.mains(),
    {
        &self.main_configs
    }

    /// The loaded files, in the order they were first loaded.
    pub fn loaded_configs(&self) -> (r: &Vec<(String, (WatchConfig, u64))>)
        requires
            self.wf(),
        ensures
            r@ == self.loaded(),
            distinct_keys(r@),
            pairs_map(r@) == self.known(),
    {
        proof {
            self.known_configs.lemma_pairs_view();
        }
        self.known_configs.entries()
    }

    /// Whether the file at `path`, last modified at `modified`, is to be
    /// read (see `load_needed`).
    pub fn needs_load(&self, path: &str, modified: u64) -> (r: bool)
        requires
            self.wf(),
        ensures
            r == load_needed(self.known(), path@, modified),
    {
        match self.known_configs.get(path) {
            Some(entry) => entry.1 != modified,
            None => true,
        }
    }

    /// Merges the override read from `config_path` into the watcher it
    /// names (see `merged_as`).
    pub fn parse_and_merge(&self, config_path: &str, embedded: EmbeddedConfig) -> (r: Result<
        WatchConfig,
        EmbedError,
    >)
        ensures
            merged_as(self.mains(), self.secret_spec(), config_path@, embedded, r),
    {
        merge_embedded(&self.main_configs, self.secret.as_str(), config_path, embedded)
    }

    /// Records the watcher merged from the file at `path`, read at
    /// `modified`.
    pub fn record(&mut self, path: &str, merged: WatchConfig, modified: u64)
        requires
            old(self).wf(),
        ensures
            final(self).wf(),
            final(self).known() == old(self).known().insert(path@, (merged, modified)),
            final(self).dir() == old(self).dir(),
            final(self).secret_spec() == old(self).secret_spec(),
            final(self).mains() == old(self).mains(),
    {
        self.known_configs.insert(path, (merged, modified));
    }

    /// Drops the loaded files whose paths are not in `found`, and returns
    /// their paths.
    pub fn forget_missing(&mut self, found: &Vec<String>) -> (removed: Vec<String>)
        requires
            old(self).wf(),
        ensures
            final(self).wf(),
            final(self).known() == old(self).known().restrict(views(found@).to_set()),
            views(removed@).to_set() == old(self).known().dom().difference(views(found@).to_set()),
            final(self).dir() == old(self).dir(),
            final(self).secret_spec() == old(self).secret_spec(),
            final(self).mains() == old(self).mains(),
    {
        let ghost before = self.known();
        let ghost fset = views(found@).to_set();
        let ghost gone = before.dom().difference(fset);
        proof {
            self.known_configs.lemma_pairs_view();
        }
        let mut removed: Vec<String> = Vec::new();
        {
            let entries = self.known_configs.entries();
            let ghost ps = entries@;
            let ghost keys = ps.map_values(|e: (String, (WatchConfig, u64))| e.0@);
            let mut i: usize = 0;
            while i < entries.len()
                invariant
                    ps == entries@,
                    keys == ps.map_values(|e: (String, (WatchConfig, u64))| e.0@),
                    fset == views(found@).to_set(),
                    i <= ps.len(),
                    views(removed@).to_set() == keys.take(i as int).to_set().difference(fset),
                decreases ps.len() - i,
            {
                let ghost prev = removed@;
                let ghost k = keys[i as int];
                proof {
                    assert(keys.take(i + 1) =~= keys.take(i as int).push(k));
                    keys.take(i as int).lemma_push_to_set_commute(k);
                }
                if !list_contains(found, entries[i].0.as_str()) {
                    removed.push(owned(entries[i].0.as_str()));
                    proof {
                        assert(views(removed@) =~= views(prev).push(k));
                        views(prev).lemma_push_to_set_commute(k);
                        assert(!fset.contains(k));
                        assert(views(removed@).to_set() =~= keys.take(i + 1).to_set().difference(fset));
                    }
                } else {
                    proof {
                        assert(fset.contains(k));
                        assert(views(removed@).to_set() =~= keys.take(i + 1).to_set().difference(fset));
                    }
                }
                i = i + 1;
            }
            proof {
                assert(keys.take(ps.len() as int) =~= keys);
                assert forall|k: Seq<char>| keys.to_set().contains(k) <==> before.dom().contains(k) by {
                    if before.contains_key(k) {
                        let l = choose|l: int| key_at(ps, k, l);
                        assert(keys[l] == k);
                    }
                    if keys.contains(k) {
                        let l = choose|l: int| 0 <= l < keys.len() && keys[l] == k;
                        assert(key_at(ps, k, l));
                    }
                }
                assert(keys.to_set() =~= before.dom());
                assert(views(removed@).to_set() =~= gone);
            }
        }
        let mut j: usize = 0;
        while j < removed.len()
            invariant
                self.wf(),
                j <= removed@.len(),
                self.known() == before.remove_keys(views(removed@).take(j as int).to_set()),
                self.dir() == old(self).dir(),
                self.secret_spec() == old(self).secret_spec(),
                self.mains() == old(self).mains(),
            decreases removed@.len() - j,
        {
            self.known_configs.remove(removed[j].as_str());
            proof {
                let t = views(removed@).take(j as int);
                assert(views(removed@).take(j + 1) =~= t.push(removed@[j as int]@));
                t.lemma_push_to_set_commute(removed@[j as int]@);
                assert(self.known() =~= before.remove_keys(views(removed@).take(j + 1).to_set()));
            }
            j = j + 1;
        }
        proof {
            assert(views(removed@).take(removed@.len() as int) =~= views(removed@));
            assert(self.known() =~= before.restrict(fset));
        }
        removed
    }
}

} // verus!
