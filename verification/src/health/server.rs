//! The health server's state and its HTTP routes. The HTTP listener, the
//! clock and the JSON rendering live outside the library; every change of
//! state and every routing decision is here.
use vstd::prelude::*;
use crate::config::watch::WatchConfig;
use crate::health::watchers::{info_of, watcher_info_from_config, WatcherInfo};
use crate::keyed::Keyed;
use crate::text::{append, decimal, decimal_string, join_from, joined, lines_of, lines_spec, owned, str_eq, views};
use crate::utils::hardware::HardwareAccelInfo;

verus! {

/// One finished conversion.
#[derive(Debug, Clone)]
pub struct ConversionRecord {
    pub time: String,
    pub watcher: String,
    pub file: String,
    pub status: String,
    pub output: String,
}

/// `r` records the conversion of `file` by `watcher` at `time`: `done`
/// with its output path, or `error` with none.
pub open spec fn record_for(r: ConversionRecord, time: Seq<char>, watcher: Seq<char>, file: Seq<char>, output: Option<
    String,
>) -> bool {
    &&& r.time@ == time
    &&& r.watcher@ == watcher
    &&& r.file@ == file
    &&& match output {
        Some(o) => r.status@ == "done"@ && r.output == o,
        None => r.status@ == "error"@ && r.output@.len() == 0,
    }
}

/// The queue after `file` was enqueued: created if missing, and `file`
/// appended unless already queued.
pub open spec fn enqueued(q: Option<Seq<Seq<char>>>, file: Seq<char>) -> Option<Seq<Seq<char>>> {
    let cur = match q {
        Some(v) => v,
        None => Seq::empty(),
    };
    Some(
        if cur.contains(file) {
            cur
        } else {
            cur.push(file)
        },
    )
}

/// Every entry but `file`.
pub open spec fn other_than(file: Seq<char>) -> spec_fn(Seq<char>) -> bool {
    |x: Seq<char>| x != file
}

/// The queue after `file` was dequeued: every entry equal to it removed.
pub open spec fn dequeued(q: Option<Seq<Seq<char>>>, file: Seq<char>) -> Option<Seq<Seq<char>>> {
    match q {
        Some(v) => Some(v.filter(other_than(file))),
        None => None,
    }
}

/// No entry occurs twice.
pub open spec fn no_duplicates(v: Seq<Seq<char>>) -> bool {
    forall|i: int, j: int| 0 <= i < v.len() && 0 <= j < v.len() && v[i] == v[j] ==> i == j
}

/// The history after `r` was added, keeping only the `max` newest records.
pub open spec fn bounded_push(h: Seq<ConversionRecord>, r: ConversionRecord, max: nat) -> Seq<ConversionRecord> {
    let all = h.push(r);
    if all.len() > max {
        all.skip(all.len() - max)
    } else {
        all
    }
}

/// `s1` is `s0` after `watcher` began converting `file`: the watcher is
/// converting that file (the other watchers as they were), the file has
/// left the queue, and the history, counters and settings are unchanged.
pub open spec fn conversion_begun(s0: HealthServer, s1: HealthServer, watcher: Seq<char>, file: Seq<char>) -> bool {
    &&& s1.wf()
    &&& s1.spec_processing().dom() == s0.spec_processing().dom().insert(watcher)
    &&& s1.spec_processing()[watcher]@ == file
    &&& forall|w: Seq<char>| w != watcher && #[trigger] s0.spec_processing().contains_key(w)
        ==> s1.spec_processing()[w] == s0.spec_processing()[w]
    &&& s1.spec_queue() == dequeued(s0.spec_queue(), file)
    &&& s1.spec_history() == s0.spec_history()
    &&& s1.spec_processed() == s0.spec_processed()
    &&& s1.spec_errors() == s0.spec_errors()
    &&& s1.same_settings(&s0)
}

/// `s1` is `s0` after the conversion of `file` by `watcher` ended at `time`,
/// with its output path on success (`None` on failure): the watcher is no
/// longer converting anything, the processed counter (on success) or the
/// error counter (on failure) went up, a `done` or `error` record was added
/// to the history, and the queue and settings are unchanged.
pub open spec fn conversion_finished(
    s0: HealthServer,
    s1: HealthServer,
    watcher: Seq<char>,
    file: Seq<char>,
    time: Seq<char>,
    output: Option<String>,
) -> bool {
    &&& s1.wf()
    &&& s1.spec_processing() == s0.spec_processing().remove(watcher)
    &&& s1.spec_queue() == s0.spec_queue()
    &&& s1.spec_processed() == if output is Some {
        s0.spec_processed().wrapping_add(1)
    } else {
        s0.spec_processed()
    }
    &&& s1.spec_errors() == if output is Some {
        s0.spec_errors()
    } else {
        s0.spec_errors().wrapping_add(1)
    }
    &&& exists|rec: ConversionRecord|
        record_for(rec, time, watcher, file, output) && s1.spec_history() == bounded_push(
            s0.spec_history(),
            rec,
            s0.spec_max_records() as nat,
        )
    &&& s1.same_settings(&s0)
}

/// The bookkeeping of one conversion, from its start to its end: the file
/// has left the queue, the watcher converts nothing, the processed counter
/// (on success) or the error counter (on failure) went up by one, one `done`
/// or `error` record was added to the history, and the settings are kept.
pub proof fn law_conversion_bookkeeping(
    s0: HealthServer,
    s1: HealthServer,
    s2: HealthServer,
    watcher: Seq<char>,
    file: Seq<char>,
    time: Seq<char>,
    output: Option<String>,
)
    requires
        conversion_begun(s0, s1, watcher, file),
        conversion_finished(s1, s2, watcher, file, time, output),
    ensures
        s2.wf(),
        s2.spec_processing() == s0.spec_processing().remove(watcher),
        s2.spec_queue() == dequeued(s0.spec_queue(), file),
        s2.spec_processed() == if output is Some {
            s0.spec_processed().wrapping_add(1)
        } else {
            s0.spec_processed()
        },
        s2.spec_errors() == if output is Some {
            s0.spec_errors()
        } else {
            s0.spec_errors().wrapping_add(1)
        },
        exists|rec: ConversionRecord|
            record_for(rec, time, watcher, file, output) && s2.spec_history() == bounded_push(
                s0.spec_history(),
                rec,
                s0.spec_max_records() as nat,
            ),
        s2.same_settings(&s0),
{
    assert(s2.spec_processing() =~= s0.spec_processing().remove(watcher));
}

/// The state behind the health and dashboard endpoints.
pub struct HealthServer {
    port: u16,
    bind_address: String,
    running: bool,
    watchers: Vec<WatcherInfo>,
    queue: Option<Vec<String>>,
    processing: Keyed<String>,
    history: Vec<ConversionRecord>,
    processed: u64,
    errors: u64,
    error_log_path: Option<String>,
    app_log_path: Option<String>,
    hw_info: Option<HardwareAccelInfo>,
    history_file: Option<String>,
    history_persistent: bool,
    max_records: usize,
}

impl HealthServer {
    /// The state is consistent: the queue holds each file once and the
    /// files in progress are keyed by distinct watchers.
    pub closed spec fn wf(&self) -> bool {
        &&& self.processing.wf()
        &&& match self.queue {
            Some(v) => no_duplicates(views(v@)),
            None => true,
        }
    }

    pub closed spec fn spec_port(&self) -> u16 {
        self.port
    }

    pub closed spec fn spec_bind_address(&self) -> Seq<char> {
        self.bind_address@
    }

    pub closed spec fn spec_running(&self) -> bool {
        self.running
    }

    pub closed spec fn spec_watchers(&self) -> Seq<WatcherInfo> {
        self.watchers@
    }

    /// The global queue, absent until the first file is enqueued.
    pub closed spec fn spec_queue(&self) -> Option<Seq<Seq<char>>> {
        match self.queue {
            Some(v) => Some(views(v@)),
            None => None,
        }
    }

    /// The file each watcher is converting.
    pub closed spec fn spec_processing(&self) -> Map<Seq<char>, String> {
        self.processing.view()
    }

    pub closed spec fn spec_history(&self) -> Seq<ConversionRecord> {
        self.history@
    }

    pub closed spec fn spec_processed(&self) -> u64 {
        self.processed
    }

    pub closed spec fn spec_errors(&self) -> u64 {
        self.errors
    }

    pub closed spec fn spec_error_log_path(&self) -> Option<String> {
        self.error_log_path
    }

    pub closed spec fn spec_app_log_path(&self) -> Option<String> {
        self.app_log_path
    }

    pub closed spec fn spec_history_file(&self) -> Option<String> {
        self.history_file
    }

    pub closed spec fn spec_history_persistent(&self) -> bool {
        self.history_persistent
    }

    pub closed spec fn spec_max_records(&self) -> usize {
        self.max_records
    }

    pub closed spec fn spec_has_hw_info(&self) -> bool {
        self.hw_info is Some
    }

    /// The other fields of `self` and `o` agree, for the methods that change
    /// one of them.
    pub closed spec fn same_settings(&self, o: &Self) -> bool {
        &&& self.port == o.port
        &&& self.bind_address == o.bind_address
        &&& self.error_log_path == o.error_log_path
        &&& self.app_log_path == o.app_log_path
        &&& self.history_file == o.history_file
        &&& self.history_persistent == o.history_persistent
        &&& self.max_records == o.max_records
        &&& (self.hw_info is Some <==> o.hw_info is Some)
    }

    /// A stopped server with no watchers, queue, files in progress or
    /// history, keeping at most `max_records` history records.
    pub fn new(port: u16, bind_address: String, max_records: usize) -> (r: Self)
        ensures
            r.wf(),
            r.spec_port() == port,
            r.spec_bind_address() == bind_address@,
            !r.spec_running(),
            r.spec_watchers().len() == 0,
            r.spec_queue() is None,
            r.spec_processing() == Map::<Seq<char>, String>::empty(),
            r.spec_history().len() == 0,
            r.spec_processed() == 0,
            r.spec_errors() == 0,
            r.spec_error_log_path() is None,
            r.spec_app_log_path() is None,
            !r.spec_has_hw_info(),
            r.spec_history_file() is None,
            !r.spec_history_persistent(),
            r.spec_max_records() == max_records,
    {
        HealthServer {
            port,
            bind_address,
            running: false,
            watchers: Vec::new(),
            queue: None,
            processing: Keyed::new(),
            history: Vec::new(),
            processed: 0,
            errors: 0,
            error_log_path: None,
            app_log_path: None,
            hw_info: None,
            history_file: None,
            history_persistent: false,
            max_records,
        }
    }

    /// The server with the error log at `path` served under `/logs/errors`.
    pub fn with_error_logger(self, path: String) -> (r: Self)
        requires
            self.wf(),
        ensures
            r.wf(),
            r.spec_error_log_path() == Some(path),
            r.spec_app_log_path() == self.spec_app_log_path(),
            r.spec_history() == self.spec_history(),
            r.spec_max_records() == self.spec_max_records(),
    {
        let mut s = self;
        s.error_log_path = Some(path);
        s
    }

    /// The server with the hardware picture `info`.
    pub fn with_hardware_info(self, info: HardwareAccelInfo) -> (r: Self)
        requires
            self.wf(),
        ensures
            r.wf(),
            r.spec_has_hw_info(),
            r.spec_error_log_path() == self.spec_error_log_path(),
            r.spec_app_log_path() == self.spec_app_log_path(),
            r.spec_history() == self.spec_history(),
            r.spec_max_records() == self.spec_max_records(),
    {
        let mut s = self;
        s.hw_info = Some(info);
        s
    }

    /// The server with the application log at `path` served under `/logs`
    /// and `/logs/app`.
    pub fn with_app_log(self, path: String) -> (r: Self)
        requires
            self.wf(),
        ensures
            r.wf(),
            r.spec_app_log_path() == Some(path),
            r.spec_error_log_path() == self.spec_error_log_path(),
            r.spec_history() == self.spec_history(),
            r.spec_max_records() == self.spec_max_records(),
    {
        let mut s = self;
        s.app_log_path = Some(path);
        s
    }

    /// Turns on history persistence to `file` when `persistent`, taking the
    /// records `stored` there (as read back by the caller, `None` where the
    /// file was missing or unreadable) as the history.
    pub fn with_history_persistence(self, file: &str, persistent: bool, stored: Option<Vec<ConversionRecord>>) -> (r:
        Self)
        requires
            self.wf(),
        ensures
            r.wf(),
            r.spec_max_records() == self.spec_max_records(),
            r.spec_error_log_path() == self.spec_error_log_path(),
            r.spec_app_log_path() == self.spec_app_log_path(),
            persistent ==> r.spec_history_persistent() && (r.spec_history_file() matches Some(f) && f@ == file@),
            !persistent ==> r.spec_history_persistent() == self.spec_history_persistent()
                && r.spec_history_file() == self.spec_history_file(),
            r.spec_history() == if persistent && stored is Some {
                stored->0@
            } else {
                self.spec_history()
            },
    {
        let mut s = self;
        if persistent {
            s.history_file = Some(owned(file));
            s.history_persistent = true;
            match stored {
                Some(records) => {
                    s.history = records;
                },
                None => {},
            }
        }
        s
    }

    /// Marks the server as serving.
    pub fn start(&mut self)
        requires
            old(self).wf(),
        ensures
            final(self).wf(),
            final(self).spec_running(),
            final(self).same_settings(old(self)),
            final(self).spec_history() == old(self).spec_history(),
    {
        self.running = true;
    }

    /// Asks the serving loop to stop.
    pub fn stop(&mut self)
        requires
            old(self).wf(),
        ensures
            final(self).wf(),
            !final(self).spec_running(),
            final(self).same_settings(old(self)),
            final(self).spec_history() == old(self).spec_history(),
    {
        self.running = false;
    }

    /// Whether the serving loop should go on.
    pub fn is_running(&self) -> (r: bool)
        ensures
            r == self.spec_running(),
    {
        self.running
    }

    /// Shows `config` on the dashboard, replacing any watcher with the same
    /// watch folder.
    pub fn add_watcher_with_config(&mut self, config: &WatchConfig)
        requires
            old(self).wf(),
        ensures
            final(self).wf(),
            final(self).same_settings(old(self)),
            final(self).spec_history() == old(self).spec_history(),
            final(self).spec_queue() == old(self).spec_queue(),
            final(self).spec_watchers().len() >= 1,
            info_of(*config, final(self).spec_watchers().last()),
            final(self).spec_watchers().drop_last() == old(self).spec_watchers().filter(
                |w: WatcherInfo| w.watch_folder@ != config.watch_folder@,
            ),
    {
        let info = watcher_info_from_config(config);
        let mut old_list: Vec<WatcherInfo> = Vec::new();
        core::mem::swap(&mut old_list, &mut self.watchers);
        let ghost start = old_list@;
        let mut kept: Vec<WatcherInfo> = Vec::new();
        let n = old_list.len();
        let mut i: usize = 0;
        while i < n
            invariant
                n == start.len(),
                i <= n,
                old_list@ == start.skip(i as int),
                kept@ == start.take(i as int).filter(|w: WatcherInfo| w.watch_folder@ != config.watch_folder@),
                info.watch_folder == config.watch_folder,
            decreases n - i,
        {
            let w = old_list.remove(0);
            proof {
                assert(w == start[i as int]);
                assert(old_list@ =~= start.skip(i + 1));
                let t = start.take(i + 1);
                assert(t.drop_last() =~= start.take(i as int));
                assert(t.last() == w);
                reveal(Seq::filter);
            }
            if !str_eq(w.watch_folder.as_str(), info.watch_folder.as_str()) {
                kept.push(w);
            }
            i = i + 1;
        }
        assert(start.take(n as int) =~= start);
        kept.push(info);
        self.watchers = kept;
    }

    /// Counts one more successful conversion (wrapping like an atomic add).
    pub fn increment_processed(&mut self, _watcher: &str)
        requires
            old(self).wf(),
        ensures
            final(self).wf(),
            final(self).spec_processed() == old(self).spec_processed().wrapping_add(1),
            final(self).spec_errors() == old(self).spec_errors(),
            final(self).same_settings(old(self)),
            final(self).spec_queue() == old(self).spec_queue(),
            final(self).spec_processing() == old(self).spec_processing(),
            final(self).spec_history() == old(self).spec_history(),
    {
        self.processed = self.processed.wrapping_add(1);
    }

    /// Counts one more failed conversion (wrapping like an atomic add).
    pub fn increment_error(&mut self, _watcher: &str)
        requires
            old(self).wf(),
        ensures
            final(self).wf(),
            final(self).spec_errors() == old(self).spec_errors().wrapping_add(1),
            final(self).spec_processed() == old(self).spec_processed(),
            final(self).same_settings(old(self)),
            final(self).spec_queue() == old(self).spec_queue(),
            final(self).spec_processing() == old(self).spec_processing(),
            final(self).spec_history() == old(self).spec_history(),
    {
        self.errors = self.errors.wrapping_add(1);
    }

    /// Records that `watcher` is converting `file`.
    pub fn set_processing(&mut self, watcher: String, file: String)
        requires
            old(self).wf(),
        ensures
            final(self).wf(),
            final(self).spec_processing() == old(self).spec_processing().insert(watcher@, file),
            final(self).spec_queue() == old(self).spec_queue(),
            final(self).same_settings(old(self)),
            final(self).spec_processed() == old(self).spec_processed(),
            final(self).spec_errors() == old(self).spec_errors(),
            final(self).spec_history() == old(self).spec_history(),
    {
        self.processing.insert(watcher.as_str(), file);
    }

    /// Records that `watcher` converts nothing.
    pub fn clear_processing(&mut self, watcher: &str)
        requires
            old(self).wf(),
        ensures
            final(self).wf(),
            final(self).spec_processing() == old(self).spec_processing().remove(watcher@),
            final(self).spec_queue() == old(self).spec_queue(),
            final(self).same_settings(old(self)),
            final(self).spec_processed() == old(self).spec_processed(),
            final(self).spec_errors() == old(self).spec_errors(),
            final(self).spec_history() == old(self).spec_history(),
    {
        self.processing.remove(watcher);
    }

    /// Adds `file` to the global queue unless it is already there.
    pub fn enqueue(&mut self, file: &str)
        requires
            old(self).wf(),
        ensures
            final(self).wf(),
            final(self).spec_queue() == enqueued(old(self).spec_queue(), file@),
            final(self).spec_processing() == old(self).spec_processing(),
            final(self).same_settings(old(self)),
            final(self).spec_processed() == old(self).spec_processed(),
            final(self).spec_errors() == old(self).spec_errors(),
            final(self).spec_history() == old(self).spec_history(),
    {
        let mut q: Vec<String> = match self.queue.take() {
            Some(v) => v,
            None => Vec::new(),
        };
        let ghost cur = views(q@);
        let mut i: usize = 0;
        let mut found = false;
        while i < q.len() && !found
            invariant
                i <= q@.len(),
                cur == views(q@),
                found ==> i < q@.len() && q@[i as int]@ == file@,
                forall|l: int| 0 <= l < i ==> q@[l]@ != file@,
            decreases q@.len() - i + if found { 0int } else { 1int },
        {
            if str_eq(q[i].as_str(), file) {
                found = true;
            } else {
                i = i + 1;
            }
        }
        proof {
            if found {
                assert(cur[i as int] == file@);
            } else if cur.contains(file@) {
                let k = choose|k: int| 0 <= k < cur.len() && cur[k] == file@;
                assert(q@[k]@ == file@);
            }
        }
        if !found {
            let ghost before = q@;
            q.push(owned(file));
            proof {
                assert(views(q@) =~= cur.push(file@));
                assert forall|a: int, b: int| 0 <= a < views(q@).len() && 0 <= b < views(q@).len() && views(q@)[a]
                    == views(q@)[b] implies a == b by {
                    if a < cur.len() && b == cur.len() {
                        assert(cur[a] == file@);
                    } else if b < cur.len() && a == cur.len() {
                        assert(cur[b] == file@);
                    }
                }
            }
        }
        self.queue = Some(q);
    }

    /// Removes `file` from the global queue.
    pub fn dequeue(&mut self, file: &str)
        requires
            old(self).wf(),
        ensures
            final(self).wf(),
            final(self).spec_queue() == dequeued(old(self).spec_queue(), file@),
            final(self).spec_processing() == old(self).spec_processing(),
            final(self).same_settings(old(self)),
            final(self).spec_processed() == old(self).spec_processed(),
            final(self).spec_errors() == old(self).spec_errors(),
            final(self).spec_history() == old(self).spec_history(),
    {
        match self.queue.take() {
            None => {},
            Some(mut q) => {
                let ghost qs = q@;
                let ghost start = views(q@);
                assert(no_duplicates(start));
                let mut kept: Vec<String> = Vec::new();
                let n = q.len();
                let mut i: usize = 0;
                assert(q@ =~= qs.skip(0));
                while i < n
                    invariant
                        n == start.len(),
                        n == qs.len(),
                        start == views(qs),
                        no_duplicates(start),
                        i <= n,
                        q@ == qs.skip(i as int),
                        views(kept@) == start.take(i as int).filter(other_than(file@)),
                    decreases n - i,
                {
                    let s = q.remove(0);
                    proof {
                        assert(s == qs[i as int]);
                        assert(q@ =~= qs.skip(i + 1));
                        let t = start.take(i + 1);
                        assert(t.drop_last() =~= start.take(i as int));
                        assert(t.last() == s@);
                        reveal(Seq::filter);
                    }
                    if !str_eq(s.as_str(), file) {
                        let ghost before = kept@;
                        kept.push(s);
                        assert(views(kept@) =~= views(before).push(s@));
                    }
                    i = i + 1;
                }
                assert(start.take(n as int) =~= start);
                proof {
                    lemma_filter_no_duplicates(start, file@);
                }
                self.queue = Some(kept);
            },
        }
    }

    /// Adds a finished conversion to the history, keeping only the newest
    /// `max_records` records.
    pub fn add_history(&mut self, record: ConversionRecord)
        requires
            old(self).wf(),
        ensures
            final(self).wf(),
            final(self).spec_history() == bounded_push(
                old(self).spec_history(),
                record,
                old(self).spec_max_records() as nat,
            ),
            final(self).spec_history().len() <= old(self).spec_max_records(),
            old(self).spec_max_records() > 0 ==> final(self).spec_history().last() == record,
            final(self).spec_queue() == old(self).spec_queue(),
            final(self).spec_processing() == old(self).spec_processing(),
            final(self).same_settings(old(self)),
            final(self).spec_processed() == old(self).spec_processed(),
            final(self).spec_errors() == old(self).spec_errors(),
    {
        let ghost all = self.history@.push(record);
        self.history.push(record);
        let len = self.history.len();
        if len > self.max_records {
            let excess = len - self.max_records;
            let mut kept: Vec<ConversionRecord> = Vec::new();
            let mut rest: Vec<ConversionRecord> = Vec::new();
            core::mem::swap(&mut rest, &mut self.history);
            let mut i: usize = 0;
            while i < len
                invariant
                    len == all.len(),
                    excess == len - self.max_records,
                    i <= len,
                    rest@ == all.skip(i as int),
                    i <= excess ==> kept@.len() == 0,
                    i > excess ==> kept@ == all.subrange(excess as int, i as int),
                decreases len - i,
            {
                let r = rest.remove(0);
                proof {
                    assert(r == all[i as int]);
                    assert(rest@ =~= all.skip(i + 1));
                }
                if i >= excess {
                    let ghost before = kept@;
                    kept.push(r);
                    proof {
                        if i == excess {
                            assert(kept@ =~= all.subrange(excess as int, i + 1));
                        } else {
                            assert(kept@ =~= all.subrange(excess as int, i + 1));
                        }
                    }
                }
                i = i + 1;
            }
            assert(kept@ =~= all.skip(excess as int));
            self.history = kept;
        }
    }

    /// A conversion starts: `watcher` is converting `file`, which leaves the
    /// queue.
    pub fn begin_conversion(&mut self, watcher: &str, file: &str)
        requires
            old(self).wf(),
        ensures
            conversion_begun(*old(self), *final(self), watcher@, file@),
    {
        self.set_processing(owned(watcher), owned(file));
        self.dequeue(file);
    }

    /// A conversion of `file` by `watcher` ended at `time`, with its output
    /// path on success (`None` on failure): the matching counter goes up, a
    /// `done` or `error` record is added to the history, and `watcher` is
    /// no longer converting anything.
    pub fn finish_conversion(&mut self, watcher: &str, file: &str, time: String, output: Option<String>)
        requires
            old(self).wf(),
        ensures
            conversion_finished(*old(self), *final(self), watcher@, file@, time@, output),
    {
        let ghost h0 = self.spec_history();
        let ghost m0 = self.spec_max_records();
        let record = match output {
            Some(out) => {
                self.increment_processed(watcher);
                ConversionRecord {
                    time,
                    watcher: owned(watcher),
                    file: owned(file),
                    status: owned("done"),
                    output: out,
                }
            },
            None => {
                self.increment_error(watcher);
                ConversionRecord {
                    time,
                    watcher: owned(watcher),
                    file: owned(file),
                    status: owned("error"),
                    output: String::new(),
                }
            },
        };
        let ghost r = record;
        self.add_history(record);
        self.clear_processing(watcher);
        assert(record_for(r, time@, watcher@, file@, output) && self.spec_history() == bounded_push(h0, r, m0 as nat));
    }

    /// The port and address the server listens on.
    pub fn port(&self) -> (r: u16)
        ensures
            r == self.spec_port(),
    {
        self.port
    }

    pub fn bind_address(&self) -> (r: &str)
        ensures
            r@ == self.spec_bind_address(),
    {
        self.bind_address.as_str()
    }

    /// The watchers, for `/api/watchers`.
    pub fn watchers(&self) -> (r: &Vec<WatcherInfo>)
        ensures
            r@ == self.spec_watchers(),
    {
        &self.watchers
    }

    /// The global queue, for `/api/queue`.
    pub fn queue(&self) -> (r: Option<&Vec<String>>)
        ensures
            match r {
                Some(v) => self.spec_queue() == Some(views(v@)),
                None => self.spec_queue() is None,
            },
    {
        match &self.queue {
            Some(v) => Some(v),
            None => None,
        }
    }

    /// The files in progress, by watcher, for `/api/queue`.
    pub fn processing(&self) -> (r: &Keyed<String>)
        ensures
            r.view() == self.spec_processing(),
            self.wf() ==> r.wf(),
    {
        &self.processing
    }

    /// The history, oldest first, for `/api/history` and for saving.
    pub fn history(&self) -> (r: &Vec<ConversionRecord>)
        ensures
            r@ == self.spec_history(),
    {
        &self.history
    }

    /// Where the history is saved, when it is saved.
    pub fn history_target(&self) -> (r: Option<&String>)
        ensures
            match r {
                Some(f) => self.spec_history_persistent() && self.spec_history_file() == Some(*f),
                None => !self.spec_history_persistent() || self.spec_history_file() is None,
            },
    {
        if self.history_persistent {
            match &self.history_file {
                Some(f) => Some(f),
                None => None,
            }
        } else {
            None
        }
    }

    /// The hardware picture, when one was given.
    pub fn hardware_info(&self) -> (r: Option<&HardwareAccelInfo>)
        ensures
            r is Some == self.spec_has_hw_info(),
    {
        match &self.hw_info {
            Some(i) => Some(i),
            None => None,
        }
    }

    /// The counts shown by `/health`, with the uptime given in seconds.
    pub fn summary(&self, uptime_secs: u64) -> (r: HealthSummary)
        requires
            self.wf(),
        ensures
            r.uptime@ == uptime_text(uptime_secs as nat),
            r.watchers == self.spec_watchers().len(),
            r.queue == match self.spec_queue() {
                Some(v) => v.len(),
                None => 0,
            },
            r.processing == self.spec_processing().len(),
            r.processed == self.spec_processed(),
            r.errors == self.spec_errors(),
    {
        let queue = match &self.queue {
            Some(v) => v.len(),
            None => 0,
        };
        HealthSummary {
            uptime: uptime_string(uptime_secs),
            watchers: self.watchers.len(),
            queue,
            processing: self.processing.len(),
            processed: self.processed,
            errors: self.errors,
        }
    }

    /// The log file served by a log route, if one is configured.
    pub fn log_path(&self, route: Route) -> (r: Option<&String>)
        ensures
            match route {
                Route::AppLog => match r {
                    Some(p) => self.spec_app_log_path() == Some(*p),
                    None => self.spec_app_log_path() is None,
                },
                Route::ErrorLog => match r {
                    Some(p) => self.spec_error_log_path() == Some(*p),
                    None => self.spec_error_log_path() is None,
                },
                _ => r is None,
            },
    {
        match route {
            Route::AppLog => match &self.app_log_path {
                Some(p) => Some(p),
                None => None,
            },
            Route::ErrorLog => match &self.error_log_path {
                Some(p) => Some(p),
                None => None,
            },
            _ => None,
        }
    }
}

proof fn lemma_filter_no_duplicates(s: Seq<Seq<char>>, file: Seq<char>)
    requires
        no_duplicates(s),
    ensures
        no_duplicates(s.filter(other_than(file))),
    decreases s.len(),
{
    reveal(Seq::filter);
    if s.len() > 0 {
        let init = s.drop_last();
        assert forall|i: int, j: int| 0 <= i < init.len() && 0 <= j < init.len() && init[i] == init[j] implies i
            == j by {
            assert(s[i] == init[i] && s[j] == init[j]);
        }
        lemma_filter_no_duplicates(init, file);
        let f = init.filter(other_than(file));
        if s.last() != file {
            assert forall|k: int| 0 <= k < f.len() implies f[k] != s.last() by {
                init.lemma_filter_contains_rev(other_than(file), f[k]);
                let m = choose|m: int| 0 <= m < init.len() && init[m] == f[k];
                assert(s[m] == init[m]);
                assert(s[s.len() - 1] == s.last());
            }
        }
    }
}

/// What `/health` reports.
#[derive(Debug, Clone)]
pub struct HealthSummary {
    pub uptime: String,
    pub watchers: usize,
    pub queue: usize,
    pub processing: usize,
    pub processed: u64,
    pub errors: u64,
}

/// `{hours}h {minutes}m {seconds}s`.
pub open spec fn uptime_text(secs: nat) -> Seq<char> {
    decimal(secs / 3600) + "h "@ + decimal((secs % 3600) / 60) + "m "@ + decimal(secs % 60) + "s"@
}

/// The uptime as the dashboard shows it.
pub fn uptime_string(secs: u64) -> (r: String)
    ensures
        r@ == uptime_text(secs as nat),
{
    let mut r = decimal_string(secs / 3600);
    append(&mut r, "h ");
    let m = decimal_string((secs % 3600) / 60);
    append(&mut r, m.as_str());
    append(&mut r, "m ");
    let s = decimal_string(secs % 60);
    append(&mut r, s.as_str());
    append(&mut r, "s");
    r
}

/// The endpoints of the health server.
#[derive(Debug, Clone, Copy, PartialEq, Eq, Structural)]
pub enum Route {
    Dashboard,
    Health,
    Watchers,
    Queue,
    History,
    AppLog,
    ErrorLog,
    NotFound,
}

/// The endpoint a request reaches: only `GET` is served; `/` and
/// `/dashboard` give the dashboard, `/logs` and `/logs/app` the
/// application log.
pub open spec fn route_of(is_get: bool, path: Seq<char>) -> Route {
    if !is_get {
        Route::NotFound
    } else if path == "/"@ || path == "/dashboard"@ {
        Route::Dashboard
    } else if path == "/health"@ {
        Route::Health
    } else if path == "/api/watchers"@ {
        Route::Watchers
    } else if path == "/api/queue"@ {
        Route::Queue
    } else if path == "/api/history"@ {
        Route::History
    } else if path == "/logs"@ || path == "/logs/app"@ {
        Route::AppLog
    } else if path == "/logs/errors"@ {
        Route::ErrorLog
    } else {
        Route::NotFound
    }
}

/// Each endpoint is reached by exactly its own paths, and only by `GET`:
/// `/` and `/dashboard` the dashboard, `/health` the health check,
/// `/api/watchers`, `/api/queue` and `/api/history` the watchers, the queue
/// and the history, `/logs` and `/logs/app` the application log, and
/// `/logs/errors` the error log; anything else is not found.
pub proof fn law_routes(is_get: bool, path: Seq<char>)
    ensures
        route_of(is_get, path) == Route::Dashboard <==> is_get && (path == "/"@ || path == "/dashboard"@),
        route_of(is_get, path) == Route::Health <==> is_get && path == "/health"@,
        route_of(is_get, path) == Route::Watchers <==> is_get && path == "/api/watchers"@,
        route_of(is_get, path) == Route::Queue <==> is_get && path == "/api/queue"@,
        route_of(is_get, path) == Route::History <==> is_get && path == "/api/history"@,
        route_of(is_get, path) == Route::AppLog <==> is_get && (path == "/logs"@ || path == "/logs/app"@),
        route_of(is_get, path) == Route::ErrorLog <==> is_get && path == "/logs/errors"@,
{
    reveal_strlit("/");
    reveal_strlit("/dashboard");
    reveal_strlit("/health");
    reveal_strlit("/api/watchers");
    reveal_strlit("/api/queue");
    reveal_strlit("/api/history");
    reveal_strlit("/logs");
    reveal_strlit("/logs/app");
    reveal_strlit("/logs/errors");
    assert("/"@.len() == 1);
    assert("/dashboard"@.len() == 10);
    assert("/health"@.len() == 7);
    assert("/api/watchers"@.len() == 13);
    assert("/api/queue"@.len() == 10);
    assert("/api/history"@.len() == 12);
    assert("/logs"@.len() == 5);
    assert("/logs/app"@.len() == 9);
    assert("/logs/errors"@.len() == 12);
    assert("/dashboard"@ != "/api/queue"@) by {
        assert("/dashboard"@[1] != "/api/queue"@[1]);
    }
    assert("/api/history"@ != "/logs/errors"@) by {
        assert("/api/history"@[1] != "/logs/errors"@[1]);
    }
}

/// The endpoint of a request, from its method and its URL as sent.
pub fn route(is_get: bool, path: &str) -> (r: Route)
    ensures
        r == route_of(is_get, path@),
{
    if !is_get {
        Route::NotFound
    } else if str_eq(path, "/") || str_eq(path, "/dashboard") {
        Route::Dashboard
    } else if str_eq(path, "/health") {
        Route::Health
    } else if str_eq(path, "/api/watchers") {
        Route::Watchers
    } else if str_eq(path, "/api/queue") {
        Route::Queue
    } else if str_eq(path, "/api/history") {
        Route::History
    } else if str_eq(path, "/logs") || str_eq(path, "/logs/app") {
        Route::AppLog
    } else if str_eq(path, "/logs/errors") {
        Route::ErrorLog
    } else {
        Route::NotFound
    }
}

/// Dequeuing a file that enqueuing added gives back the queue as it was.
pub proof fn law_dequeue_undoes_enqueue(q: Seq<Seq<char>>, file: Seq<char>)
    requires
        !q.contains(file),
    ensures
        dequeued(enqueued(Some(q), file), file) == Some(q),
{
    reveal(Seq::filter);
    let p = q.push(file);
    assert(p.drop_last() =~= q);
    assert(enqueued(Some(q), file) == Some(p));
    assert(p.last() == file);
    assert(p.filter(other_than(file)) == p.drop_last().filter(other_than(file)));
    lemma_filter_keeps_all(q, file);
}

proof fn lemma_filter_keeps_all(q: Seq<Seq<char>>, file: Seq<char>)
    requires
        !q.contains(file),
    ensures
        q.filter(other_than(file)) == q,
    decreases q.len(),
{
    reveal(Seq::filter);
    if q.len() > 0 {
        let init = q.drop_last();
        assert(!init.contains(file)) by {
            if init.contains(file) {
                let k = choose|k: int| 0 <= k < init.len() && init[k] == file;
                assert(q[k] == file);
            }
        }
        lemma_filter_keeps_all(init, file);
        assert(q.last() != file) by {
            assert(q[q.len() - 1] == q.last());
        }
        assert(init.push(q.last()) =~= q);
    }
}

/// After enqueuing, the file is queued exactly once.
pub proof fn law_enqueue_once(q: Seq<Seq<char>>, file: Seq<char>)
    requires
        no_duplicates(q),
    ensures
        enqueued(Some(q), file)->0.contains(file),
        no_duplicates(enqueued(Some(q), file)->0),
{
    let r = enqueued(Some(q), file)->0;
    if !q.contains(file) {
        assert(r[q.len() as int] == file);
        assert forall|a: int, b: int| 0 <= a < r.len() && 0 <= b < r.len() && r[a] == r[b] implies a == b by {
            if a < q.len() && b == q.len() {
                assert(q[a] == file);
            } else if b < q.len() && a == q.len() {
                assert(q[b] == file);
            }
        }
    }
}

/// After dequeuing, the file is no longer queued.
pub proof fn law_dequeue_removes(q: Seq<Seq<char>>, file: Seq<char>)
    ensures
        !dequeued(Some(q), file)->0.contains(file),
{
    let r = dequeued(Some(q), file)->0;
    if r.contains(file) {
        let k = choose|k: int| 0 <= k < r.len() && r[k] == file;
        q.lemma_filter_pred(other_than(file), k);
    }
}

/// The history never holds more than `max` records, and the newest record
/// is always kept.
pub proof fn law_history_bounded(h: Seq<ConversionRecord>, r: ConversionRecord, max: nat)
    ensures
        bounded_push(h, r, max).len() <= max,
        max > 0 ==> bounded_push(h, r, max).last() == r,
{
}

/// The last `max` lines of `content`, joined by newlines.
pub open spec fn tail_text(content: Seq<char>, max: nat) -> Seq<char> {
    let ls = lines_spec(content);
    joined(ls.skip(if ls.len() > max { ls.len() - max } else { 0 }), "\n"@)
}

/// The last `max_lines` lines of a log's text, as the log endpoints serve
/// them.
pub fn last_lines(content: &str, max_lines: usize) -> (r: String)
    ensures
        r@ == tail_text(content@, max_lines as nat),
{
    let lines = lines_of(content);
    let n = lines.len();
    let start = if n > max_lines {
        n - max_lines
    } else {
        0
    };
    join_from(&lines, start, "\n")
}

} // verus!
