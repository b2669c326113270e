//! Static broker configuration: the server socket, the per-agent descriptor
//! table, the timeout budget, and the web surface switches. The broker never
//! rewrites this at runtime.

use vstd::prelude::*;

verus! {

use crate::text;

/// One agent's descriptor: how to start it, how to recognize readiness and
/// failure, and how prompts and done markers are framed for it.
#[derive(Clone)]
pub struct AgentConfig {
    pub command: String,
    pub args: Vec<String>,
    pub log_provider: String,
    pub ready_pattern: String,
    pub error_patterns: Vec<String>,
    pub supports_cwd: bool,
    pub sentinel_template: String,
    pub sentinel_regex: String,
    pub done_template: String,
    pub done_regex: String,
}

#[derive(Clone)]
pub struct ServerConfig {
    pub port: u16,
    pub host: String,
}

impl Default for ServerConfig {
    fn default() -> (r: Self)
        ensures
            r.port == 8765,
            r.host@ == "127.0.0.1"@,
    {
        ServerConfig { port: 8765, host: "127.0.0.1".to_owned() }
    }
}

/// All durations are in seconds but `start_retry_delay_ms`.
#[derive(Clone)]
pub struct TimeoutConfig {
    pub default: u64,
    pub startup: u64,
    pub ready_check: u64,
    pub queue_wait: u64,
    pub max_stuck_duration: u64,
    pub max_start_retries: u32,
    pub start_retry_delay_ms: u64,
}

impl Default for TimeoutConfig {
    fn default() -> (r: Self)
        ensures
            r.default == 600,
            r.startup == 30,
            r.ready_check == 30,
            r.queue_wait == 60,
            r.max_stuck_duration == 300,
            r.max_start_retries == 3,
            r.start_retry_delay_ms == 1000,
    {
        TimeoutConfig {
            default: 600,
            startup: 30,
            ready_check: 30,
            queue_wait: 60,
            max_stuck_duration: 300,
            max_start_retries: 3,
            start_retry_delay_ms: 1000,
        }
    }
}

#[derive(Clone)]
pub struct WebConfig {
    pub auth_token: Option<String>,
    pub input_enabled: bool,
    pub output_buffer_size: usize,
}

impl Default for WebConfig {
    fn default() -> (r: Self)
        ensures
            r.auth_token is None,
            !r.input_enabled,
            r.output_buffer_size == 10 * 1024 * 1024,
    {
        WebConfig { auth_token: None, input_enabled: false, output_buffer_size: 10 * 1024 * 1024 }
    }
}

pub struct Config {
    pub server: ServerConfig,
    pub agents: Vec<(String, AgentConfig)>,
    pub timeouts: TimeoutConfig,
    pub web: WebConfig,
}

/// The first table entry under `name`, searched front to back.
pub open spec fn spec_lookup(agents: Seq<(String, AgentConfig)>, name: Seq<char>) -> Option<
    AgentConfig,
>
    decreases agents.len(),
{
    if agents.len() == 0 {
        None
    } else if agents[0].0@ == name {
        Some(agents[0].1)
    } else {
        spec_lookup(agents.skip(1), name)
    }
}

/// What a built-in agent entry holds: start the tool named `name` with no
/// arguments, harvest replies from the log provider of the same name, and
/// frame prompts with the stock `{id}`/`{message}` templates.
pub open spec fn spec_is_builtin(c: AgentConfig, name: Seq<char>) -> bool {
    &&& c.command@ == name
    &&& c.args@.len() == 0
    &&& c.log_provider@ == name
    &&& c.ready_pattern@ == ""@
    &&& c.error_patterns@.len() == 0
    &&& !c.supports_cwd
    &&& c.sentinel_template@ == "[[REQUEST {id}]] {message}"@
    &&& c.sentinel_regex@ == "\\[\\[REQUEST\\s+([A-Za-z0-9_-]+)\\]\\]"@
    &&& c.done_template@ == "[[DONE {id}]]"@
    &&& c.done_regex@ == "\\[\\[DONE\\s+{id}\\]\\]"@
}

/// A built-in agent entry.
fn builtin_agent(name: &str) -> (r: AgentConfig)
    ensures
        spec_is_builtin(r, name@),
{
    AgentConfig {
        command: name.to_owned(),
        args: Vec::new(),
        log_provider: name.to_owned(),
        ready_pattern: "".to_owned(),
        error_patterns: Vec::new(),
        supports_cwd: false,
        sentinel_template: "[[REQUEST {id}]] {message}".to_owned(),
        sentinel_regex: "\\[\\[REQUEST\\s+([A-Za-z0-9_-]+)\\]\\]".to_owned(),
        done_template: "[[DONE {id}]]".to_owned(),
        done_regex: "\\[\\[DONE\\s+{id}\\]\\]".to_owned(),
    }
}

impl Default for Config {
    /// The stock table: one entry each for the `codex`, `gemini` and
    /// `opencode` tools, each reading replies through the log provider of
    /// the same name.
    fn default() -> (r: Self)
        ensures
            r.server.port == 8765,
            r.server.host@ == "127.0.0.1"@,
            r.timeouts.default == 600,
            r.timeouts.startup == 30,
            r.timeouts.queue_wait == 60,
            r.timeouts.max_stuck_duration == 300,
            r.timeouts.max_start_retries == 3,
            r.timeouts.start_retry_delay_ms == 1000,
            r.web.auth_token is None,
            !r.web.input_enabled,
            r.web.output_buffer_size == 10 * 1024 * 1024,
            r.timeouts.ready_check == 30,
            r.agents@.len() == 3,
            r.agents@[0].0@ == "codex"@ && spec_is_builtin(r.agents@[0].1, "codex"@),
            r.agents@[1].0@ == "gemini"@ && spec_is_builtin(r.agents@[1].1, "gemini"@),
            r.agents@[2].0@ == "opencode"@ && spec_is_builtin(r.agents@[2].1, "opencode"@),
    {
        let mut agents: Vec<(String, AgentConfig)> = Vec::new();
        agents.push(("codex".to_owned(), builtin_agent("codex")));
        agents.push(("gemini".to_owned(), builtin_agent("gemini")));
        agents.push(("opencode".to_owned(), builtin_agent("opencode")));
        Config {
            server: ServerConfig::default(),
            agents,
            timeouts: TimeoutConfig::default(),
            web: WebConfig::default(),
        }
    }
}

impl Config {
    /// The descriptor registered under `name`, if any.
    pub fn get_agent(&self, name: &str) -> (r: Option<&AgentConfig>)
        ensures
            match r {
                Some(c) => spec_lookup(self.agents@, name@) == Some(*c),
                None => spec_lookup(self.agents@, name@) is None,
            },
    {
        let nv = text::chars_of(name);
        let mut i: usize = 0;
        proof {
            assert(self.agents@.skip(0) =~= self.agents@);
        }
        while i < self.agents.len()
            invariant
                i <= self.agents@.len(),
                nv@ == name@,
                spec_lookup(self.agents@, name@) == spec_lookup(
                    self.agents@.skip(i as int),
                    name@,
                ),
            decreases self.agents@.len() - i,
        {
            let kv = text::chars_of(self.agents[i].0.as_str());
            let ghost rest = self.agents@.skip(i as int);
            assert(rest[0] == self.agents@[i as int]);
            if text::chars_eq(&kv, &nv) {
                return Some(&self.agents[i].1);
            }
            proof {
                assert(rest.skip(1) =~= self.agents@.skip(i + 1));
            }
            i += 1;
        }
        proof {
            assert(self.agents@.skip(self.agents@.len() as int) =~= Seq::<(
                String,
                AgentConfig,
            )>::empty());
        }
        None
    }
}

} // verus!
