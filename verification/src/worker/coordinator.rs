//! The coordinator's side of the worker protocol: who may register, which
//! agent takes a job, and what each reply during a job means. Sockets,
//! timers and file streaming live outside the library.
use vstd::prelude::*;
use subtle::ConstantTimeEq;
use crate::common::config::WorkerIoMode;
use crate::common::protocol::{JobKind, Message, WireAudioRule, WireVideoRule};
use crate::keyed::Keyed;
use crate::text::{append, decimal, decimal_string, owned, str_eq};

verus! {

/// Calls `subtle`'s `ConstantTimeEq::ct_eq` on two byte slices and turns
/// the `Choice` into a `bool`: slices of different lengths are unequal, and
/// slices of the same length are equal exactly when every byte is.
#[verifier::external_body]
fn constant_time_eq(a: &[u8], b: &[u8]) -> (r: bool)
    ensures
        r == (a@ == b@),
{
    a.ct_eq(b).into()
}

/// Whether an agent presenting `provided` may register: any agent when no
/// secret is configured, otherwise only one presenting the secret, compared
/// in constant time.
pub fn secret_ok(secret: &str, provided: &str) -> (r: bool)
    ensures
        r == (secret@.len() == 0 || secret@ == provided@),
{
    if secret.is_empty() {
        return true;
    }
    let r = constant_time_eq(secret.as_bytes(), provided.as_bytes());
    proof {
        vstd::utf8::encode_utf8_decode_utf8(secret@);
        vstd::utf8::encode_utf8_decode_utf8(provided@);
    }
    r
}

/// What the coordinator does with the first message of a connection.
#[derive(Debug)]
pub enum Registration {
    /// Accept the agent and answer with `reply`.
    Accept { agent_id: String, io_mode: WorkerIoMode, reply: Message },
    /// Refuse the agent and answer with `reply`.
    Reject { agent_id: String, reply: Message },
    /// The first message was not a registration.
    Unexpected,
}

/// The answer to a connection's first message: a registration with the
/// right secret is acknowledged with the server's id, one with a wrong
/// secret is rejected as `invalid secret`, anything else is refused.
pub fn register_agent(secret: &str, server_id: &str, first: Message) -> (r: Registration)
    ensures
        match first {
            Message::Register { agent_id, secret: given, caps } => if secret@.len() == 0 || secret@ == given@ {
                r matches Registration::Accept { agent_id: id, io_mode, reply } && id == agent_id && io_mode
                    == caps.io_mode && (reply matches Message::RegisterAck { server_id: s } && s@ == server_id@)
            } else {
                r matches Registration::Reject { agent_id: id, reply } && id == agent_id && (
                reply matches Message::RegisterReject { reason } && reason@ == "invalid secret"@)
            },
            _ => r is Unexpected,
        },
{
    match first {
        Message::Register { agent_id, secret: given, caps } => {
            if secret_ok(secret, given.as_str()) {
                Registration::Accept {
                    agent_id,
                    io_mode: caps.io_mode,
                    reply: Message::RegisterAck { server_id: owned(server_id) },
                }
            } else {
                Registration::Reject {
                    agent_id,
                    reply: Message::RegisterReject { reason: owned("invalid secret") },
                }
            }
        },
        _ => Registration::Unexpected,
    }
}

/// What the coordinator knows of one connected agent.
#[derive(Debug, Clone, Copy)]
pub struct AgentState {
    pub io_mode: WorkerIoMode,
    /// The connection this entry belongs to; a reconnect replaces it.
    pub connection: u64,
    /// Jobs running on the agent.
    pub inflight: u64,
    /// Whether the connection is believed usable.
    pub alive: bool,
}

/// Agent `id` is alive and no alive agent has fewer jobs running.
pub open spec fn least_loaded(agents: Map<Seq<char>, AgentState>, id: Seq<char>) -> bool {
    &&& agents.contains_key(id)
    &&& agents[id].alive
    &&& forall|o: Seq<char>| #[trigger] agents.contains_key(o) && agents[o].alive ==> agents[id].inflight
        <= agents[o].inflight
}

/// Some agent is alive.
pub open spec fn any_alive(agents: Map<Seq<char>, AgentState>) -> bool {
    exists|o: Seq<char>| #[trigger] agents.contains_key(o) && agents[o].alive
}

/// The agents after a job starts on `id`: one more job in flight there.
pub open spec fn job_started(agents: Map<Seq<char>, AgentState>, id: Seq<char>) -> Map<Seq<char>, AgentState> {
    if agents.contains_key(id) {
        let a = agents[id];
        agents.insert(id, AgentState { inflight: a.inflight.wrapping_add(1), ..a })
    } else {
        agents
    }
}

/// The agents after a job on `id` ends: one job fewer in flight there, and
/// after a failure the agent is no longer alive.
pub open spec fn job_ended(agents: Map<Seq<char>, AgentState>, id: Seq<char>, ok: bool) -> Map<
    Seq<char>,
    AgentState,
> {
    if agents.contains_key(id) {
        let a = agents[id];
        agents.insert(id, AgentState { inflight: a.inflight.wrapping_sub(1), alive: a.alive && ok, ..a })
    } else {
        agents
    }
}

/// An agent a job failed on is not picked for another job.
pub proof fn law_failed_agent_not_picked(agents: Map<Seq<char>, AgentState>, id: Seq<char>, picked: Seq<char>)
    requires
        least_loaded(job_ended(agents, id, false), picked),
    ensures
        picked != id,
{
}

/// A job that starts and ends well on an agent leaves the agents as they
/// were, as long as the count of jobs in flight did not wrap.
pub proof fn law_job_round_trip(agents: Map<Seq<char>, AgentState>, id: Seq<char>)
    requires
        agents.contains_key(id) ==> agents[id].inflight < u64::MAX,
    ensures
        job_ended(job_started(agents, id), id, true) == agents,
{
    if agents.contains_key(id) {
        assert(job_ended(job_started(agents, id), id, true) =~= agents);
    }
}

/// The id a coordinator announces to agents: `convwatcher-server-{pid}`.
pub fn server_id_for(pid: u32) -> (r: String)
    ensures
        r@ == "convwatcher-server-"@ + decimal(pid as nat),
{
    let mut r = owned("convwatcher-server-");
    let n = decimal_string(pid as u64);
    append(&mut r, n.as_str());
    r
}

/// The connected agents of a coordinator, keyed by agent id.
pub struct WorkerPool {
    secret: String,
    server_id: String,
    agents: Keyed<AgentState>,
    next_connection: u64,
    job_seq: u64,
}

impl WorkerPool {
    /// No agent id is recorded twice, and while the connection counter has
    /// room every recorded connection number is below it.
    pub closed spec fn wf(&self) -> bool {
        &&& self.agents.wf()
        &&& self.next_connection < u64::MAX ==> forall|k: Seq<char>|
            #[trigger] self.agents.view().contains_key(k) ==> self.agents.view()[k].connection < self.next_connection
    }

    /// The number the next accepted connection gets.
    pub closed spec fn spec_next_connection(&self) -> u64 {
        self.next_connection
    }

    /// The connected agents.
    pub closed spec fn view(&self) -> Map<Seq<char>, AgentState> {
        self.agents.view()
    }

    pub closed spec fn spec_secret(&self) -> Seq<char> {
        self.secret@
    }

    pub closed spec fn spec_server_id(&self) -> Seq<char> {
        self.server_id@
    }

    /// The id the next job gets.
    pub closed spec fn spec_job_seq(&self) -> u64 {
        self.job_seq
    }

    /// A pool with no agents, naming itself `server_id` (the server's
    /// `convwatcher-server-{pid}`); job ids start at 1.
    pub fn new(secret: String, server_id: String) -> (r: Self)
        ensures
            r.wf(),
            r.view() == Map::<Seq<char>, AgentState>::empty(),
            r.spec_secret() == secret@,
            r.spec_server_id() == server_id@,
            r.spec_job_seq() == 1,
            r.spec_next_connection() == 0,
    {
        WorkerPool { secret, server_id, agents: Keyed::new(), next_connection: 0, job_seq: 1 }
    }

    /// The number of connected agents.
    pub fn agent_count(&self) -> (r: usize)
        requires
            self.wf(),
        ensures
            r == self.view().len(),
    {
        self.agents.len()
    }

    /// Answers a connection's first message (see `register_agent`) and, on
    /// acceptance, records the agent as alive and idle on a new connection,
    /// replacing any earlier connection of the same id. Returns the
    /// decision and the connection number: the counter's value, which no
    /// recorded agent holds while the counter has room, so a handler of an
    /// earlier connection never removes the new entry (`remove_if_current`).
    pub fn register(&mut self, first: Message) -> (r: (Registration, u64))
        requires
            old(self).wf(),
        ensures
            final(self).wf(),
            final(self).spec_secret() == old(self).spec_secret(),
            final(self).spec_server_id() == old(self).spec_server_id(),
            final(self).spec_job_seq() == old(self).spec_job_seq(),
            r.1 == old(self).spec_next_connection(),
            old(self).spec_next_connection() < u64::MAX ==> forall|k: Seq<char>|
                #[trigger] old(self).view().contains_key(k) ==> old(self).view()[k].connection != r.1,
            final(self).spec_next_connection() == if r.0 is Accept && old(self).spec_next_connection() < u64::MAX {
                (old(self).spec_next_connection() + 1) as u64
            } else {
                old(self).spec_next_connection()
            },
            match r.0 {
                Registration::Accept { agent_id, io_mode, reply } => final(self).view() == old(self).view().insert(
                    agent_id@,
                    AgentState { io_mode, connection: r.1, inflight: 0, alive: true },
                ),
                _ => final(self).view() == old(self).view(),
            },
            match first {
                Message::Register { agent_id, secret: given, caps } => if old(self).spec_secret().len() == 0
                    || old(self).spec_secret() == given@ {
                    r.0 matches Registration::Accept { agent_id: id, io_mode, reply } && id == agent_id && io_mode
                        == caps.io_mode && (reply matches Message::RegisterAck { server_id: s } && s@
                        == old(self).spec_server_id())
                } else {
                    r.0 matches Registration::Reject { agent_id: id, reply } && id == agent_id && (
                    reply matches Message::RegisterReject { reason } && reason@ == "invalid secret"@)
                },
                _ => r.0 is Unexpected,
            },
    {
        let decision = register_agent(self.secret.as_str(), self.server_id.as_str(), first);
        let conn = self.next_connection;
        match &decision {
            Registration::Accept { agent_id, io_mode, reply: _ } => {
                self.agents.insert(
                    agent_id.as_str(),
                    AgentState { io_mode: *io_mode, connection: conn, inflight: 0, alive: true },
                );
                if self.next_connection < u64::MAX {
                    self.next_connection = self.next_connection + 1;
                }
            },
            _ => {},
        }
        (decision, conn)
    }

    /// Drops agent `id` when its entry still belongs to `connection`; an
    /// entry from a later reconnect is kept.
    pub fn remove_if_current(&mut self, id: &str, connection: u64)
        requires
            old(self).wf(),
        ensures
            final(self).wf(),
            final(self).spec_next_connection() == old(self).spec_next_connection(),
            final(self).spec_secret() == old(self).spec_secret(),
            final(self).spec_job_seq() == old(self).spec_job_seq(),
            final(self).view() == if old(self).view().contains_key(id@) && old(self).view()[id@].connection
                == connection {
                old(self).view().remove(id@)
            } else {
                old(self).view()
            },
    {
        let current = match self.agents.get(id) {
            Some(a) => a.connection == connection,
            None => false,
        };
        if current {
            self.agents.remove(id);
        }
    }

    /// The agent a job goes to: the first alive agent with the fewest jobs
    /// running, or none when no agent is alive.
    pub fn pick_agent(&self) -> (r: Option<String>)
        requires
            self.wf(),
        ensures
            match r {
                Some(id) => least_loaded(self.view(), id@),
                None => !any_alive(self.view()),
            },
    {
        let entries = self.agents.entries();
        proof {
            self.agents.lemma_pairs_view();
        }
        let ghost s = entries@;
        let mut best: Option<usize> = None;
        let mut i: usize = 0;
        while i < entries.len()
            invariant
                s == entries@,
                s == self.agents.pairs(),
                crate::keyed::distinct_keys(s),
                crate::keyed::pairs_map(s) == self.view(),
                i <= s.len(),
                match best {
                    Some(b) => b < i && s[b as int].1.alive && forall|l: int|
                        0 <= l < i && s[l].1.alive ==> s[b as int].1.inflight <= #[trigger] s[l].1.inflight,
                    None => forall|l: int| 0 <= l < i ==> !(#[trigger] s[l]).1.alive,
                },
            decreases s.len() - i,
        {
            let a = &entries[i].1;
            if a.alive {
                match best {
                    Some(b) => {
                        if a.inflight < entries[b].1.inflight {
                            best = Some(i);
                        }
                    },
                    None => {
                        best = Some(i);
                    },
                }
            }
            i = i + 1;
        }
        match best {
            Some(b) => {
                proof {
                    crate::keyed::lemma_pairs_lookup(s, b as int);
                    assert forall|o: Seq<char>| #[trigger] self.view().contains_key(o) && self.view()[o].alive
                        implies self.view()[s[b as int].0@].inflight <= self.view()[o].inflight by {
                        let k = choose|k: int| crate::keyed::key_at(s, o, k);
                        assert(crate::keyed::key_at(s, o, k));
                        crate::keyed::lemma_pairs_lookup(s, k);
                        assert(s[k].1.alive);
                    }
                }
                Some(entries[b].0.clone())
            },
            None => {
                proof {
                    if any_alive(self.view()) {
                        let o = choose|o: Seq<char>| #[trigger] self.view().contains_key(o) && self.view()[o].alive;
                        let k = choose|k: int| crate::keyed::key_at(s, o, k);
                        assert(crate::keyed::key_at(s, o, k));
                        crate::keyed::lemma_pairs_lookup(s, k);
                        assert(!s[k].1.alive);
                    }
                }
                None
            },
        }
    }

    /// The id of the next job, advancing the counter (wrapping like an
    /// atomic add).
    pub fn next_job_id(&mut self) -> (r: u64)
        requires
            old(self).wf(),
        ensures
            final(self).wf(),
            final(self).spec_next_connection() == old(self).spec_next_connection(),
            r == old(self).spec_job_seq(),
            final(self).spec_job_seq() == old(self).spec_job_seq().wrapping_add(1),
            final(self).view() == old(self).view(),
            final(self).spec_secret() == old(self).spec_secret(),
    {
        let id = self.job_seq;
        self.job_seq = self.job_seq.wrapping_add(1);
        id
    }

    /// A job starts on agent `id`: one more job in flight.
    pub fn begin_job(&mut self, id: &str)
        requires
            old(self).wf(),
        ensures
            final(self).wf(),
            final(self).spec_next_connection() == old(self).spec_next_connection(),
            final(self).spec_job_seq() == old(self).spec_job_seq(),
            final(self).spec_secret() == old(self).spec_secret(),
            final(self).view() == job_started(old(self).view(), id@),
    {
        let cur = match self.agents.get(id) {
            Some(a) => Some(*a),
            None => None,
        };
        match cur {
            Some(a) => {
                self.agents.insert(id, AgentState { inflight: a.inflight.wrapping_add(1), ..a });
            },
            None => {},
        }
    }

    /// A job on agent `id` ended: one job fewer in flight, and after a
    /// failure the connection is marked dead so the agent is dropped.
    pub fn end_job(&mut self, id: &str, ok: bool)
        requires
            old(self).wf(),
        ensures
            final(self).wf(),
            final(self).spec_next_connection() == old(self).spec_next_connection(),
            final(self).spec_job_seq() == old(self).spec_job_seq(),
            final(self).spec_secret() == old(self).spec_secret(),
            final(self).view() == job_ended(old(self).view(), id@, ok),
    {
        let cur = match self.agents.get(id) {
            Some(a) => Some(*a),
            None => None,
        };
        match cur {
            Some(a) => {
                self.agents.insert(
                    id,
                    AgentState { inflight: a.inflight.wrapping_sub(1), alive: a.alive && ok, ..a },
                );
            },
            None => {},
        }
    }

    /// Agent `id`'s connection failed a heartbeat: it is no longer used.
    pub fn mark_dead(&mut self, id: &str)
        requires
            old(self).wf(),
        ensures
            final(self).wf(),
            final(self).spec_next_connection() == old(self).spec_next_connection(),
            final(self).spec_job_seq() == old(self).spec_job_seq(),
            final(self).spec_secret() == old(self).spec_secret(),
            final(self).view() == if old(self).view().contains_key(id@) {
                let a = old(self).view()[id@];
                old(self).view().insert(id@, AgentState { alive: false, ..a })
            } else {
                old(self).view()
            },
    {
        let cur = match self.agents.get(id) {
            Some(a) => Some(*a),
            None => None,
        };
        match cur {
            Some(a) => {
                self.agents.insert(id, AgentState { alive: false, ..a });
            },
            None => {},
        }
    }

    /// The state of agent `id`.
    pub fn agent(&self, id: &str) -> (r: Option<AgentState>)
        requires
            self.wf(),
        ensures
            match r {
                Some(a) => self.view().contains_key(id@) && self.view()[id@] == a,
                None => !self.view().contains_key(id@),
            },
    {
        match self.agents.get(id) {
            Some(a) => Some(*a),
            None => None,
        }
    }
}

/// A conversion to run on an agent: the rule it needs, the output
/// extension, the local input file streamed over and the local path the
/// returned output is written to.
#[derive(Debug, Clone)]
pub struct RemoteJob {
    pub kind: JobKind,
    pub video_rule: Option<WireVideoRule>,
    pub audio_rule: Option<WireAudioRule>,
    pub output_ext: String,
    pub input_path: String,
    pub output_path: String,
}

impl RemoteJob {
    pub fn new(
        kind: JobKind,
        video_rule: Option<WireVideoRule>,
        audio_rule: Option<WireAudioRule>,
        output_ext: String,
        input_path: String,
        output_path: String,
    ) -> (r: Self)
        ensures
            r.kind == kind,
            r.video_rule == video_rule,
            r.audio_rule == audio_rule,
            r.output_ext == output_ext,
            r.input_path == input_path,
            r.output_path == output_path,
    {
        RemoteJob { kind, video_rule, audio_rule, output_ext, input_path, output_path }
    }

    /// The header announcing this job as job `job_id`, with `input_len`
    /// bytes of input following, in the agent's I/O mode.
    pub fn header(&self, job_id: u64, io_mode: WorkerIoMode, input_len: u64) -> (r: Message)
        ensures
            r matches Message::Job { job_id: j, kind, video_rule, audio_rule, output_ext, io_mode: m, input_len: n }
                && j == job_id && kind == self.kind && m == io_mode && n == input_len && output_ext@
                == self.output_ext@ && video_rule == self.video_rule && audio_rule == self.audio_rule,
    {
        Message::Job {
            job_id,
            kind: self.kind,
            video_rule: match &self.video_rule {
                Some(v) => Some(copy_wire_video(v)),
                None => None,
            },
            audio_rule: match &self.audio_rule {
                Some(a) => Some(copy_wire_audio(a)),
                None => None,
            },
            output_ext: self.output_ext.clone(),
            io_mode,
            input_len,
        }
    }
}

fn copy_wire_video(v: &WireVideoRule) -> (r: WireVideoRule)
    ensures
        r == *v,
{
    WireVideoRule {
        codec: crate::text::copy_opt(&v.codec),
        quality: crate::text::copy_opt(&v.quality),
        audio_codec: crate::text::copy_opt(&v.audio_codec),
        audio_bitrate: crate::text::copy_opt(&v.audio_bitrate),
        check_duration: v.check_duration,
        min_duration_ratio_bits: v.min_duration_ratio_bits,
    }
}

fn copy_wire_audio(a: &WireAudioRule) -> (r: WireAudioRule)
    ensures
        r == *a,
{
    WireAudioRule {
        audio_codec: crate::text::copy_opt(&a.audio_codec),
        audio_bitrate: crate::text::copy_opt(&a.audio_bitrate),
        sample_rate: a.sample_rate,
        channels: a.channels,
    }
}

/// What a reply from the agent running job `job_id` means.
#[derive(Debug, Clone, PartialEq, Eq)]
pub enum JobStep {
    /// A status report: keep reading.
    Continue,
    /// `len` bytes of output follow: write them to the output path.
    ReceiveOutput { len: u64 },
    /// The job succeeded.
    Done,
    /// The job failed with this error (remove any partial output).
    Failed { error: String },
    /// An output or result announced for another job.
    WrongJob { got: u64 },
    /// A message that has no place during a job.
    Unexpected,
}

/// The meaning of one reply during job `job_id`.
pub fn job_step(job_id: u64, msg: Message) -> (r: JobStep)
    ensures
        match msg {
            Message::JobStatus { .. } => r is Continue,
            Message::JobOutputStart { job_id: j, output_len } => if j != job_id {
                r == JobStep::WrongJob { got: j }
            } else {
                r == JobStep::ReceiveOutput { len: output_len }
            },
            Message::JobResult { job_id: j, ok, error } => if j != job_id {
                r == JobStep::WrongJob { got: j }
            } else if ok {
                r is Done
            } else {
                r matches JobStep::Failed { error: e } && e@ == match error {
                    Some(s) => s@,
                    None => Seq::empty(),
                }
            },
            _ => r is Unexpected,
        },
{
    match msg {
        Message::JobStatus { .. } => JobStep::Continue,
        Message::JobOutputStart { job_id: j, output_len } => {
            if j != job_id {
                JobStep::WrongJob { got: j }
            } else {
                JobStep::ReceiveOutput { len: output_len }
            }
        },
        Message::JobResult { job_id: j, ok, error } => {
            if j != job_id {
                JobStep::WrongJob { got: j }
            } else if ok {
                JobStep::Done
            } else {
                JobStep::Failed {
                    error: match error {
                        Some(s) => s,
                        None => String::new(),
                    },
                }
            }
        },
        _ => JobStep::Unexpected,
    }
}

} // verus!
