//! The registry of agent sessions, one per configured agent. The host takes
//! a session out to drive it and puts it back; the registry keeps the table
//! well-formed and answers status snapshots.

use vstd::prelude::*;

verus! {

use crate::agent;
use crate::config::Config;
use crate::session::AgentSession;
use crate::session::spec_state_label;
use crate::text;
use crate::web::AgentStatus;

pub struct SessionManager {
    pub sessions: Vec<AgentSession>,
}

impl SessionManager {
    /// Every held session is well-formed.
    pub open spec fn wf(&self) -> bool {
        forall|i: int| 0 <= i < self.sessions@.len() ==> (#[trigger] self.sessions@[i]).wf()
    }

    /// One stopped session per configured agent, in table order. An agent
    /// whose log provider is the native-PTY tag reads replies from the PTY
    /// stream; every other one polls its log provider.
    pub fn from_config(config: &Config) -> (r: Self)
        ensures
            r.wf(),
            r.sessions@.len() == config.agents@.len(),
            forall|i: int|
                0 <= i < r.sessions@.len() ==> (#[trigger] r.sessions@[i]).name@
                    == config.agents@[i].0@ && r.sessions@[i].state is Stopped,
    {
        let mut sessions: Vec<AgentSession> = Vec::new();
        // A stuck budget too large for the millisecond clock saturates.
        let max_stuck_ms: i64 = if config.timeouts.max_stuck_duration > (i64::MAX / 1000) as u64 {
            i64::MAX
        } else {
            (config.timeouts.max_stuck_duration * 1000) as i64
        };
        let native = text::chars_of("claudecode");
        let mut i: usize = 0;
        while i < config.agents.len()
            invariant
                i <= config.agents@.len(),
                sessions@.len() == i,
                max_stuck_ms >= 0,
                forall|j: int|
                    0 <= j < i ==> (#[trigger] sessions@[j]).name@ == config.agents@[j].0@
                        && sessions@[j].state is Stopped && sessions@[j].wf(),
            decreases config.agents@.len() - i,
        {
            let name = &config.agents[i].0;
            let cfg = &config.agents[i].1;
            let adapter = agent::create_agent(name.as_str(), cfg);
            let lp = text::chars_of(cfg.log_provider.as_str());
            let uses_log_provider = !text::chars_eq(&lp, &native);
            let s = AgentSession::new(name.clone(), adapter, uses_log_provider, max_stuck_ms);
            sessions.push(s);
            i += 1;
        }
        SessionManager { sessions }
    }

    pub fn len(&self) -> (r: usize)
        ensures
            r == self.sessions@.len(),
    {
        self.sessions.len()
    }

    /// The index of the session named `name`, searching front to back.
    pub fn find(&self, name: &str) -> (r: Option<usize>)
        ensures
            match r {
                Some(i) => i < self.sessions@.len() && self.sessions@[i as int].name@ == name@
                    && forall|j: int| 0 <= j < i ==> (#[trigger] self.sessions@[j]).name@ != name@,
                None => forall|j: int|
                    0 <= j < self.sessions@.len() ==> (#[trigger] self.sessions@[j]).name@ != name@,
            },
    {
        let nv = text::chars_of(name);
        let mut i: usize = 0;
        while i < self.sessions.len()
            invariant
                i <= self.sessions@.len(),
                nv@ == name@,
                forall|j: int| 0 <= j < i ==> (#[trigger] self.sessions@[j]).name@ != name@,
            decreases self.sessions@.len() - i,
        {
            let kv = text::chars_of(self.sessions[i].name.as_str());
            if text::chars_eq(&kv, &nv) {
                return Some(i);
            }
            i += 1;
        }
        None
    }

    /// Take session `i` out to drive it; `put_session` returns it.
    pub fn take_session(&mut self, i: usize) -> (r: AgentSession)
        requires
            old(self).wf(),
            i < old(self).sessions@.len(),
        ensures
            final(self).wf(),
            r.wf(),
            r == old(self).sessions@[i as int],
            final(self).sessions@ == old(self).sessions@.remove(i as int),
    {
        self.sessions.remove(i)
    }

    /// Put a session back at position `i`.
    pub fn put_session(&mut self, i: usize, s: AgentSession)
        requires
            old(self).wf(),
            s.wf(),
            i <= old(self).sessions@.len(),
        ensures
            final(self).wf(),
            final(self).sessions@ == old(self).sessions@.insert(i as int, s),
    {
        self.sessions.insert(i, s);
        proof {
            assert forall|k: int| 0 <= k < self.sessions@.len() implies (#[trigger] self.sessions@[k]).wf() by {
                if k < i {
                    assert(self.sessions@[k] == old(self).sessions@[k]);
                } else if k == i {
                } else {
                    assert(self.sessions@[k] == old(self).sessions@[k - 1]);
                }
            }
        }
    }

    /// A snapshot of every session's name and state label, in table order.
    pub fn get_all_status(&self) -> (r: Vec<AgentStatus>)
        ensures
            r@.len() == self.sessions@.len(),
            forall|i: int|
                0 <= i < r@.len() ==> (#[trigger] r@[i]).name@ == self.sessions@[i].name@
                    && r@[i].state@ == spec_state_label(self.sessions@[i].state),
    {
        let mut r: Vec<AgentStatus> = Vec::new();
        let mut i: usize = 0;
        while i < self.sessions.len()
            invariant
                i <= self.sessions@.len(),
                r@.len() == i,
                forall|j: int|
                    0 <= j < i ==> (#[trigger] r@[j]).name@ == self.sessions@[j].name@
                        && r@[j].state@ == spec_state_label(self.sessions@[j].state),
            decreases self.sessions@.len() - i,
        {
            let s = &self.sessions[i];
            r.push(AgentStatus { name: s.name.clone(), state: s.state_label() });
            i += 1;
        }
        r
    }
}

} // verus!
