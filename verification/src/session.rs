//! The per-agent session state machine and request dispatcher. The session
//! decides every transition as a pure function of its state and the events
//! the host loop hands it (buffer tails, log entries, the clock); the host
//! performs the I/O the decisions call for (spawning, writing to the PTY,
//! polling a log provider) and reports back.

use vstd::prelude::*;

verus! {

use crate::agent;
use crate::agent::Agent;
use crate::agent::GenericAgent;
use crate::log::LogEntry;
use crate::rex;
use crate::text;

/// The error taxonomy surfaced to clients.
#[derive(Clone, Copy, Debug, PartialEq, Eq, Structural)]
pub enum SessionError {
    SpawnFailed,
    NotReady,
    QueueTimeout,
    Timeout,
    Stuck,
    Interrupted,
    Stopped,
    ProviderUnavailable,
}

/// The lifecycle states of one agent session.
pub enum SessionState {
    Stopped,
    Starting,
    Ready,
    Busy(String),
    Stuck,
    Failed(String),
}

/// One queued prompt.
pub struct Request {
    pub id: String,
    pub prompt: String,
    pub deadline_ms: i64,
}

/// Where reply harvesting for the in-flight request starts: a log-provider
/// message offset when the adapter reads an external session store, else the
/// replay-buffer length at dispatch.
#[derive(Clone, Copy, PartialEq, Eq, Structural)]
pub enum ReplyCursor {
    Log(u64),
    Pty(usize),
}

/// The request currently being served.
pub struct ActiveRequest {
    pub id: String,
    pub prompt: String,
    pub deadline_ms: i64,
    pub busy_since_ms: i64,
    pub cursor: ReplyCursor,
}

/// What `begin_start` asks the host to do.
#[derive(Clone, Copy, Debug, PartialEq, Eq, Structural)]
pub enum StartAction {
    /// The session is already `Ready` or `Busy`: starting is a no-op.
    AlreadyRunning,
    /// The session moved to `Starting`: spawn the child and poll readiness.
    Spawn,
}

/// What one startup poll concluded.
pub enum StartupOutcome {
    KeepWaiting,
    BecameReady,
    StartFailed(String),
}

/// What one busy-loop poll concluded.
pub enum PollOutcome {
    /// No request is in flight.
    Idle,
    /// Nothing decisive yet; poll again after the tick interval.
    StillBusy,
    /// The reply is in: the done marker matched and was stripped. The
    /// session is `Ready` again.
    Completed { id: String, reply: String },
    /// No progress for longer than the stuck budget: the host must send the
    /// interrupt bytes; the request failed with `Stuck`.
    StuckFailed { id: String },
    /// The deadline passed: the host must send the interrupt bytes; the
    /// request failed with `Timeout`.
    TimedOut { id: String },
}

/// `id` occurs among the queued or active request ids.
pub open spec fn spec_has_id(queue: Seq<Request>, active: Option<ActiveRequest>, id: Seq<char>) -> bool {
    (exists|i: int| 0 <= i < queue.len() && queue[i].id@ == id) || (active matches Some(a)
        && a.id@ == id)
}

pub struct AgentSession {
    pub name: String,
    pub adapter: GenericAgent,
    pub state: SessionState,
    pub queue: Vec<Request>,
    pub active: Option<ActiveRequest>,
    /// Replies come from an external log store rather than the PTY stream.
    pub uses_log_provider: bool,
    pub max_stuck_ms: i64,
}

impl AgentSession {
    /// How many requests are in flight (`Busy`) right now.
    pub open spec fn spec_busy_count(&self) -> int {
        if self.active is Some {
            1
        } else {
            0
        }
    }

    /// Session well-formedness: the `Busy` state and the active slot agree,
    /// exactly one request can be active, ids are unique across the queue
    /// and the active slot, and clocks are non-negative.
    pub open spec fn wf(&self) -> bool {
        &&& (self.state matches SessionState::Busy(id) ==> (self.active matches Some(a) && a.id@
            == id@))
        &&& (self.active matches Some(a) ==> (self.state matches SessionState::Busy(id) && id@
            == a.id@))
        &&& (forall|i: int, j: int|
            0 <= i < j < self.queue@.len() ==> self.queue@[i].id@ != self.queue@[j].id@)
        &&& (self.active matches Some(a) ==> {
            &&& (forall|i: int| 0 <= i < self.queue@.len() ==> self.queue@[i].id@ != a.id@)
            &&& a.busy_since_ms >= 0
        })
        &&& self.max_stuck_ms >= 0
    }

    pub fn new(name: String, adapter: GenericAgent, uses_log_provider: bool, max_stuck_ms: i64) -> (r: Self)
        requires
            max_stuck_ms >= 0,
        ensures
            r.wf(),
            r.name@ == name@,
            r.state is Stopped,
            r.queue@.len() == 0,
            r.active is None,
            r.uses_log_provider == uses_log_provider,
            r.max_stuck_ms == max_stuck_ms,
            r.adapter == adapter,
    {
        AgentSession {
            name,
            adapter,
            state: SessionState::Stopped,
            queue: Vec::new(),
            active: None,
            uses_log_provider,
            max_stuck_ms,
        }
    }

    /// Whether a request with this id is already queued or in flight.
    pub fn has_request(&self, id: &str) -> (r: bool)
        ensures
            r == spec_has_id(self.queue@, self.active, id@),
    {
        let idv = text::chars_of(id);
        let mut i: usize = 0;
        while i < self.queue.len()
            invariant
                i <= self.queue@.len(),
                idv@ == id@,
                forall|j: int| 0 <= j < i ==> self.queue@[j].id@ != id@,
            decreases self.queue@.len() - i,
        {
            let kv = text::chars_of(self.queue[i].id.as_str());
            if text::chars_eq(&kv, &idv) {
                return true;
            }
            i += 1;
        }
        match &self.active {
            Some(a) => {
                let av = text::chars_of(a.id.as_str());
                text::chars_eq(&av, &idv)
            },
            None => false,
        }
    }

    /// Enqueue a prompt under a fresh id. Returns `false`, changing nothing,
    /// when the id is already taken; requests wait in FIFO order.
    pub fn enqueue(&mut self, id: String, prompt: String, deadline_ms: i64) -> (r: bool)
        requires
            old(self).wf(),
        ensures
            final(self).wf(),
            r == !spec_has_id(old(self).queue@, old(self).active, id@),
            r ==> final(self).queue@.len() == old(self).queue@.len() + 1
                && final(self).queue@.last().id@ == id@
                && final(self).queue@.last().prompt@ == prompt@
                && final(self).queue@.last().deadline_ms == deadline_ms
                && final(self).queue@.take(old(self).queue@.len() as int) == old(self).queue@,
            !r ==> *final(self) == *old(self),
            final(self).state == old(self).state,
            final(self).active == old(self).active,
    {
        if self.has_request(id.as_str()) {
            return false;
        }
        let ghost pre = self.queue@;
        let ghost idv = id@;
        self.queue.push(Request { id, prompt, deadline_ms });
        proof {
            assert(self.queue@.take(pre.len() as int) =~= pre);
            assert forall|i: int, j: int|
                0 <= i < j < self.queue@.len() implies self.queue@[i].id@
                != self.queue@[j].id@ by {
                if j < pre.len() {
                } else {
                    assert(self.queue@[j].id@ == idv);
                    assert(pre[i].id@ != idv);
                }
            }
        }
        true
    }

    /// Begin starting the agent. Idempotent while the agent is `Ready` or
    /// `Busy`; from any other state the session moves to `Starting` and the
    /// host must spawn the child.
    pub fn begin_start(&mut self) -> (r: StartAction)
        requires
            old(self).wf(),
        ensures
            final(self).wf(),
            final(self).queue@ == old(self).queue@,
            final(self).active == old(self).active,
            (old(self).state is Ready || old(self).state is Busy) ==> r
                == StartAction::AlreadyRunning && final(self).state == old(self).state,
            !(old(self).state is Ready || old(self).state is Busy) ==> r == StartAction::Spawn
                && final(self).state is Starting,
    {
        match &self.state {
            SessionState::Ready => StartAction::AlreadyRunning,
            SessionState::Busy(_) => StartAction::AlreadyRunning,
            _ => {
                self.state = SessionState::Starting;
                StartAction::Spawn
            },
        }
    }

    /// One readiness poll while `Starting`: the ready pattern on the replay
    /// buffer wins; otherwise an error pattern, a dead child, or an elapsed
    /// startup budget fails the start.
    pub fn startup_poll(
        &mut self,
        buffer: &str,
        child_exit: Option<i32>,
        elapsed_ms: i64,
        startup_budget_ms: i64,
    ) -> (r: StartupOutcome)
        requires
            old(self).wf(),
            old(self).state is Starting,
        ensures
            final(self).wf(),
            final(self).queue@ == old(self).queue@,
            final(self).active == old(self).active,
            final(self).adapter == old(self).adapter,
            ({
                let ready = rex::regex_valid(old(self).adapter.spec_ready_pattern())
                    && rex::regex_matches(old(self).adapter.spec_ready_pattern(), buffer@);
                let erred = exists|i: int|
                    0 <= i < old(self).adapter.spec_error_patterns().len() && rex::regex_valid(
                        #[trigger] old(self).adapter.spec_error_patterns()[i],
                    ) && rex::regex_matches(old(self).adapter.spec_error_patterns()[i], buffer@);
                if ready {
                    r is BecameReady && final(self).state is Ready
                } else if erred || child_exit is Some || elapsed_ms > startup_budget_ms {
                    r is StartFailed && final(self).state is Failed
                } else {
                    r is KeepWaiting && final(self).state is Starting
                }
            }),
    {
        let ready = match rex::regex_is_match(self.adapter.get_ready_pattern(), buffer) {
            Some(b) => b,
            None => false,
        };
        if ready {
            self.state = SessionState::Ready;
            return StartupOutcome::BecameReady;
        }
        let patterns = self.adapter.get_error_patterns();
        let mut erred = false;
        let mut i: usize = 0;
        while i < patterns.len()
            invariant
                i <= patterns@.len(),
                patterns.deep_view() == self.adapter.spec_error_patterns(),
                erred == exists|j: int|
                    0 <= j < i && rex::regex_valid(
                        #[trigger] patterns.deep_view()[j],
                    ) && rex::regex_matches(patterns.deep_view()[j], buffer@),
            decreases patterns@.len() - i,
        {
            let m = match rex::regex_is_match(patterns[i].as_str(), buffer) {
                Some(b) => b,
                None => false,
            };
            proof {
                assert(patterns@[i as int]@ == patterns.deep_view()[i as int]);
            }
            if m {
                erred = true;
            }
            i += 1;
        }
        if erred || child_exit.is_some() || elapsed_ms > startup_budget_ms {
            let reason: String = if erred {
                "error pattern matched during startup".to_owned()
            } else if child_exit.is_some() {
                "child exited during startup".to_owned()
            } else {
                "startup timed out".to_owned()
            };
            self.state = SessionState::Failed(reason);
            return StartupOutcome::StartFailed("startup failed".to_owned());
        }
        StartupOutcome::KeepWaiting
    }

    /// When `Ready` with a queued request, take the head of the queue in
    /// flight: the session becomes `Busy` with that id and hands back the
    /// framed prompt bytes the host must write to the PTY, followed by a
    /// newline.
    pub fn dispatch(&mut self, now_ms: i64, cursor: ReplyCursor) -> (r: Option<(String, String)>)
        requires
            old(self).wf(),
            now_ms >= 0,
        ensures
            final(self).wf(),
            final(self).adapter == old(self).adapter,
            !(old(self).state is Ready && old(self).queue@.len() > 0) ==> r is None && *final(self) == *old(self),
            (old(self).state is Ready && old(self).queue@.len() > 0) ==> {
                let head = old(self).queue@[0];
                &&& r matches Some((id, inject)) && id@ == head.id@ && inject@
                    == agent::spec_inject(
                    old(self).adapter.spec_sentinel_template(),
                    old(self).adapter.spec_done_template(),
                    head.prompt@,
                    head.id@,
                )
                &&& final(self).queue@ == old(self).queue@.skip(1)
                &&& final(self).state matches SessionState::Busy(id2) && id2@ == head.id@
                &&& final(self).active matches Some(a) && a.id@ == head.id@ && a.busy_since_ms
                    == now_ms && a.cursor == cursor && a.deadline_ms == head.deadline_ms
            },
    {
        let is_ready = match &self.state {
            SessionState::Ready => true,
            _ => false,
        };
        if !is_ready || self.queue.len() == 0 {
            return None;
        }
        let ghost pre = self.queue@;
        let head = self.queue.remove(0);
        proof {
            assert(self.queue@ =~= pre.skip(1));
        }
        let inject = self.adapter.inject_message_sentinel(head.prompt.as_str(), head.id.as_str());
        let id_copy = head.id.clone();
        let id_copy2 = head.id.clone();
        self.active = Some(
            ActiveRequest {
                id: head.id,
                prompt: head.prompt,
                deadline_ms: head.deadline_ms,
                busy_since_ms: now_ms,
                cursor,
            },
        );
        self.state = SessionState::Busy(id_copy);
        Some((id_copy2, inject))
    }

    /// One busy-loop poll. In order: a complete reply on the PTY tail wins;
    /// then a log-provider entry counts as the reply; then the stuck budget
    /// and the deadline fail the request, each asking the host to send the
    /// interrupt bytes. On every decisive outcome the session returns to
    /// `Ready` and the active slot empties.
    pub fn poll(&mut self, now_ms: i64, pty_tail: &str, log_reply: Option<&LogEntry>) -> (r:
        PollOutcome)
        requires
            old(self).wf(),
            old(self).active matches Some(a) ==> now_ms >= a.busy_since_ms,
        ensures
            final(self).wf(),
            final(self).queue@ == old(self).queue@,
            final(self).adapter == old(self).adapter,
            old(self).active is None ==> r is Idle && *final(self) == *old(self),
            old(self).active matches Some(a) ==> {
                let dr = old(self).adapter.spec_done_regex();
                let pty_done = agent::spec_is_reply_complete(dr, pty_tail@, a.id@);
                if pty_done {
                    &&& r matches PollOutcome::Completed { id, reply } && id@ == a.id@ && reply@
                        == agent::spec_strip_done_marker(dr, pty_tail@, a.id@)
                    &&& final(self).state is Ready && final(self).active is None
                } else if log_reply is Some {
                    let entry = *log_reply->Some_0;
                    &&& r matches PollOutcome::Completed { id, reply } && id@ == a.id@ && reply@
                        == (if agent::spec_is_reply_complete(dr, entry.content@, a.id@) {
                        agent::spec_strip_done_marker(dr, entry.content@, a.id@)
                    } else {
                        entry.content@
                    })
                    &&& final(self).state is Ready && final(self).active is None
                } else if now_ms - a.busy_since_ms > old(self).max_stuck_ms {
                    &&& r matches PollOutcome::StuckFailed { id } && id@ == a.id@
                    &&& final(self).state is Ready && final(self).active is None
                } else if now_ms > a.deadline_ms {
                    &&& r matches PollOutcome::TimedOut { id } && id@ == a.id@
                    &&& final(self).state is Ready && final(self).active is None
                } else {
                    r is StillBusy && *final(self) == *old(self)
                }
            },
    {
        let (id, busy_since, deadline) = match &self.active {
            Some(a) => (a.id.clone(), a.busy_since_ms, a.deadline_ms),
            None => {
                return PollOutcome::Idle;
            },
        };
        if self.adapter.is_reply_complete(pty_tail, id.as_str()) {
            let reply = self.adapter.strip_done_marker(pty_tail, id.as_str());
            self.active = None;
            self.state = SessionState::Ready;
            return PollOutcome::Completed { id, reply };
        }
        match log_reply {
            Some(entry) => {
                let reply = if self.adapter.is_reply_complete(entry.content.as_str(), id.as_str()) {
                    self.adapter.strip_done_marker(entry.content.as_str(), id.as_str())
                } else {
                    entry.content.clone()
                };
                self.active = None;
                self.state = SessionState::Ready;
                return PollOutcome::Completed { id, reply };
            },
            None => {},
        }
        if now_ms - busy_since > self.max_stuck_ms {
            self.active = None;
            self.state = SessionState::Ready;
            return PollOutcome::StuckFailed { id };
        }
        if now_ms > deadline {
            self.active = None;
            self.state = SessionState::Ready;
            return PollOutcome::TimedOut { id };
        }
        PollOutcome::StillBusy
    }

    /// Cancel the in-flight request, if any: the host must send the
    /// interrupt bytes; the request fails with `Interrupted` and a `Busy`
    /// session returns to `Ready`.
    pub fn interrupt(&mut self) -> (r: Option<String>)
        requires
            old(self).wf(),
        ensures
            final(self).wf(),
            final(self).queue@ == old(self).queue@,
            final(self).adapter == old(self).adapter,
            old(self).active matches Some(a) ==> r matches Some(id) && id@ == a.id@ && final(self).state is Ready && final(self).active is None,
            old(self).active is None ==> r is None && final(self).state == old(self).state
                && final(self).active is None,
    {
        match &self.active {
            Some(a) => {
                let id = a.id.clone();
                self.active = None;
                self.state = SessionState::Ready;
                Some(id)
            },
            None => None,
        }
    }

    /// Tear the session down: the state becomes `Stopped` and every pending
    /// or in-flight request fails with `Stopped`. Returns the failed ids,
    /// the in-flight one first, then the queue in FIFO order.
    pub fn stop(&mut self) -> (r: Vec<String>)
        requires
            old(self).wf(),
        ensures
            final(self).wf(),
            final(self).state is Stopped,
            final(self).active is None,
            final(self).queue@.len() == 0,
            final(self).adapter == old(self).adapter,
            r@.len() == old(self).spec_busy_count() + old(self).queue@.len(),
            old(self).active matches Some(a) ==> r@[0]@ == a.id@,
            forall|i: int|
                0 <= i < old(self).queue@.len() ==> r@[i + old(self).spec_busy_count()]@
                    == old(self).queue@[i].id@,
    {
        let mut failed: Vec<String> = Vec::new();
        match &self.active {
            Some(a) => {
                failed.push(a.id.clone());
            },
            None => {},
        }
        let ghost base = failed@;
        let mut i: usize = 0;
        while i < self.queue.len()
            invariant
                i <= self.queue@.len(),
                failed@.len() == base.len() + i,
                failed@.take(base.len() as int) == base,
                forall|j: int| 0 <= j < i ==> failed@[j + base.len()]@ == self.queue@[j].id@,
            decreases self.queue@.len() - i,
        {
            let ghost pre = failed@;
            failed.push(self.queue[i].id.clone());
            proof {
                assert(failed@.take(base.len() as int) =~= pre.take(base.len() as int));
            }
            i += 1;
        }
        proof {
            assert(failed@.take(base.len() as int) == base);
            if base.len() > 0 {
                assert(failed@[0] == failed@.take(base.len() as int)[0]);
            }
        }
        self.active = None;
        self.queue.clear();
        self.state = SessionState::Stopped;
        failed
    }

    /// A short label for the state, for status displays.
    pub fn state_label(&self) -> (r: String)
        ensures
            r@ == spec_state_label(self.state),
    {
        match &self.state {
            SessionState::Stopped => "stopped".to_owned(),
            SessionState::Starting => "starting".to_owned(),
            SessionState::Ready => "ready".to_owned(),
            SessionState::Busy(_) => "busy".to_owned(),
            SessionState::Stuck => "stuck".to_owned(),
            SessionState::Failed(_) => "failed".to_owned(),
        }
    }
}

pub open spec fn spec_state_label(s: SessionState) -> Seq<char> {
    match s {
        SessionState::Stopped => "stopped"@,
        SessionState::Starting => "starting"@,
        SessionState::Ready => "ready"@,
        SessionState::Busy(_) => "busy"@,
        SessionState::Stuck => "stuck"@,
        SessionState::Failed(_) => "failed"@,
    }
}

/// Law: per session, at most one request is in flight, and the `Busy` state
/// carries exactly the in-flight request's id; in every other state no
/// request is in flight.
pub proof fn lemma_at_most_one_busy(s: &AgentSession)
    requires
        s.wf(),
    ensures
        s.spec_busy_count() <= 1,
        s.state matches SessionState::Busy(id) ==> s.active matches Some(a) && a.id@ == id@,
        !(s.state is Busy) ==> s.active is None,
{
}


} // verus!
