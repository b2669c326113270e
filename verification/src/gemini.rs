//! The per-project chat store: sessions live one directory deep under a
//! project-hash directory (`<root>/<hash>/chats/session-*.json`), messages
//! carry their role under a `type` key, and the store rolls over to a fresh
//! session file mid-conversation. The provider pins reply harvesting to the
//! file current at dispatch (`lock_with_entries`) and falls back to a newer
//! file when the locked one stays silent.

use vstd::prelude::*;

verus! {

use crate::jsonval;
use crate::log;
use crate::log::LogEntry;
use crate::log::LogMessage;
use crate::log::LockedSession;
use crate::log::ProviderConfig;
use crate::opencode;
use crate::path_mapper;
use crate::path_mapper::PathMapper;

/// The default store root: the caller's override when one is set, else the
/// store's home location.
pub open spec fn spec_gemini_root(root_override: Option<&String>) -> Seq<char> {
    match root_override {
        Some(o) => o@,
        None => "~/.gemini/tmp"@,
    }
}

/// The pin taken at dispatch: the session file current then, and the newest
/// real timestamp it already held.
pub struct GeminiLock {
    pub path: String,
    pub baseline_ts_ms: i64,
}

pub struct GeminiLogProvider {
    pub log_path: String,
    pub current_offset: u64,
    pub locked: Option<GeminiLock>,
}

impl GeminiLogProvider {
    /// The provider rooted at the configured pattern, at the caller's root
    /// override when one is set (the host reads it from the environment), or
    /// at the default store location.
    pub fn new(config: Option<&ProviderConfig>, root_override: Option<&String>, wsl: bool) -> (r:
        Self)
        ensures
            r.current_offset == 0,
            r.locked is None,
            exists|h: Option<Seq<char>>|
                r.log_path@ == #[trigger] path_mapper::spec_normalize(
                    opencode::spec_root_of(config, spec_gemini_root(root_override)),
                    h,
                    wsl,
                ),
    {
        let log_path = match root_override {
            Some(o) => {
                let lp = opencode::root_from(config, o.as_str(), wsl);
                proof {
                    let h = choose|h: Option<Seq<char>>|
                        lp@ == path_mapper::spec_normalize(
                            opencode::spec_root_of(config, o@),
                            h,
                            wsl,
                        );
                    assert(lp@ == path_mapper::spec_normalize(
                        opencode::spec_root_of(config, spec_gemini_root(root_override)),
                        h,
                        wsl,
                    ));
                }
                lp
            },
            None => {
                let lp = opencode::root_from(config, "~/.gemini/tmp", wsl);
                proof {
                    let h = choose|h: Option<Seq<char>>|
                        lp@ == path_mapper::spec_normalize(
                            opencode::spec_root_of(config, "~/.gemini/tmp"@),
                            h,
                            wsl,
                        );
                    assert(lp@ == path_mapper::spec_normalize(
                        opencode::spec_root_of(config, spec_gemini_root(root_override)),
                        h,
                        wsl,
                    ));
                }
                lp
            },
        };
        GeminiLogProvider { log_path, current_offset: 0, locked: None }
    }

    pub fn default_log_path(root_override: Option<&String>, wsl: bool) -> (r: String)
        ensures
            exists|h: Option<Seq<char>>|
                r@ == #[trigger] path_mapper::spec_normalize(
                    spec_gemini_root(root_override),
                    h,
                    wsl,
                ),
    {
        match root_override {
            Some(o) => {
                let lp = PathMapper::normalize(o.as_str(), wsl);
                proof {
                    let h = choose|h: Option<Seq<char>>|
                        lp@ == path_mapper::spec_normalize(o@, h, wsl);
                    assert(lp@ == path_mapper::spec_normalize(
                        spec_gemini_root(root_override),
                        h,
                        wsl,
                    ));
                }
                lp
            },
            None => {
                let lp = PathMapper::normalize("~/.gemini/tmp", wsl);
                proof {
                    let h = choose|h: Option<Seq<char>>|
                        lp@ == path_mapper::spec_normalize("~/.gemini/tmp"@, h, wsl);
                    assert(lp@ == path_mapper::spec_normalize(
                        spec_gemini_root(root_override),
                        h,
                        wsl,
                    ));
                }
                lp
            },
        }
    }

    pub fn get_watch_path(&self) -> (r: String)
        ensures
            r@ == self.log_path@,
    {
        self.log_path.clone()
    }

    pub fn get_current_offset(&self) -> (r: u64)
        ensures
            r == self.current_offset,
    {
        self.current_offset
    }

    /// The file the provider is pinned to, if any.
    pub fn locked_path(&self) -> (r: Option<String>)
        ensures
            match self.locked {
                Some(l) => r matches Some(p) && p@ == l.path@,
                None => r is None,
            },
    {
        match &self.locked {
            Some(l) => Some(l.path.clone()),
            None => None,
        }
    }

    /// Pin harvesting to `path`, whose parsed messages are `entries`: the
    /// baseline offset is the message count, the baseline timestamp the
    /// newest non-placeholder timestamp already present.
    pub fn lock_with_entries(&mut self, path: String, entries: &Vec<LogMessage>) -> (r:
        LockedSession)
        ensures
            r.file_path@ == path@,
            r.baseline_offset == entries@.len(),
            final(self).locked matches Some(l) && l.path@ == path@ && l.baseline_ts_ms
                == log::spec_baseline_ts(entries@),
            final(self).log_path == old(self).log_path,
            final(self).current_offset == old(self).current_offset,
    {
        let baseline_ts = log::baseline_ts(entries);
        let path_copy = path.clone();
        self.locked = Some(GeminiLock { path, baseline_ts_ms: baseline_ts });
        LockedSession { file_path: path_copy, baseline_offset: entries.len() as u64 }
    }

    /// Clear the pin.
    pub fn unlock_session(&mut self)
        ensures
            final(self).locked is None,
            final(self).log_path == old(self).log_path,
            final(self).current_offset == old(self).current_offset,
    {
        self.locked = None;
    }

    /// The last qualifying message of the current (or locked) file at or
    /// past `since_offset`; on a hit the cursor advances to the file's
    /// message count.
    pub fn reply_in_current(
        &mut self,
        entries: &Vec<LogMessage>,
        since_offset: u64,
        inode: Option<u64>,
    ) -> (r: Option<LogEntry>)
        ensures
            final(self).log_path == old(self).log_path,
            final(self).locked == old(self).locked,
            match log::spec_latest_idx(entries@, since_offset as int, true) {
                Some(k) => r matches Some(e) && e.content@ == entries@[k].content@ && e.offset == k
                    + 1 && e.timestamp_ms == entries@[k].timestamp_ms && e.inode == inode && final(self).current_offset == entries@.len(),
                None => r is None && final(self).current_offset == old(self).current_offset,
            },
    {
        let r = log::find_latest_reply(entries, since_offset, true, inode);
        if r.is_some() {
            self.current_offset = entries.len() as u64;
        }
        r
    }

    /// The rollover fallback, on the parsed messages of a newer session file
    /// in the locked file's directory: first the offset cursor is honored;
    /// when it finds nothing and the lock carries a real baseline timestamp,
    /// the first qualifying message strictly newer than the baseline counts.
    pub fn reply_in_newer(
        &mut self,
        entries: &Vec<LogMessage>,
        since_offset: u64,
        inode: Option<u64>,
    ) -> (r: Option<LogEntry>)
        requires
            old(self).locked is Some,
        ensures
            final(self).log_path == old(self).log_path,
            final(self).locked == old(self).locked,
            ({
                let baseline = old(self).locked->Some_0.baseline_ts_ms;
                let by_offset = log::spec_latest_idx(entries@, since_offset as int, true);
                let by_ts = log::spec_latest_ts_idx(entries@, baseline, true);
                match by_offset {
                    Some(k) => r matches Some(e) && e.content@ == entries@[k].content@ && e.offset
                        == k + 1 && e.timestamp_ms == entries@[k].timestamp_ms && e.inode == inode
                        && final(self).current_offset == entries@.len(),
                    None => {
                        if baseline != 0 && by_ts is Some {
                            let k = by_ts->Some_0;
                            r matches Some(e) && e.content@ == entries@[k].content@ && e.offset == k
                                + 1 && e.timestamp_ms == entries@[k].timestamp_ms && e.inode
                                == inode && final(self).current_offset == entries@.len()
                        } else {
                            r is None && final(self).current_offset == old(self).current_offset
                        }
                    },
                }
            }),
    {
        let baseline = match &self.locked {
            Some(l) => l.baseline_ts_ms,
            None => 0,
        };
        let by_offset = log::find_latest_reply(entries, since_offset, true, inode);
        match by_offset {
            Some(e) => {
                self.current_offset = entries.len() as u64;
                Some(e)
            },
            None => {
                if baseline != 0 {
                    let by_ts = log::find_reply_by_timestamp(entries, baseline, true, inode);
                    match by_ts {
                        Some(e) => {
                            self.current_offset = entries.len() as u64;
                            Some(e)
                        },
                        None => None,
                    }
                } else {
                    None
                }
            },
        }
    }

    /// The most recent `count` turns, oldest first, the store's role
    /// synonyms normalized to `assistant`.
    pub fn get_history_from(&self, entries: &Vec<LogMessage>, count: usize) -> (r: Vec<
        log::HistoryEntry,
    >)
        ensures
            r@.len() == if count <= entries@.len() {
                count as int
            } else {
                entries@.len() as int
            },
            forall|i: int|
                0 <= i < r@.len() ==> {
                    let src = entries@[entries@.len() - r@.len() + i];
                    #[trigger] r@[i].role@ == log::spec_normalized_role(src.role@, true)
                        && r@[i].content@ == src.content@ && r@[i].timestamp_ms == src.timestamp_ms
                },
    {
        log::history_from_messages(entries, count, true)
    }
}

/// The messages of one chat document: the `messages` array, roles under the
/// store's `type` key, RFC 3339 timestamps falling back to the epoch
/// placeholder; a malformed document or a non-array member yields nothing.
pub open spec fn spec_chat_messages(doc: Option<jsonval::JsonView>) -> Seq<log::MessageView> {
    match doc {
        None => Seq::empty(),
        Some(t) => match jsonval::spec_get(t, "messages"@) {
            Some(m) => match m {
                jsonval::JsonView::Arr(a) => log::spec_messages_from(a, "type"@, "timestamp"@, 0),
                _ => Seq::empty(),
            },
            None => Seq::empty(),
        },
    }
}

/// Parses one chat document.
pub fn parse_chat_json(content: &str) -> (r: Vec<LogMessage>)
    ensures
        log::spec_msgs_view(r@) == spec_chat_messages(jsonval::json_tree_of(content@)),
{
    let parsed = match jsonval::parse_json_tree(content) {
        Some(t) => t,
        None => {
            let r: Vec<LogMessage> = Vec::new();
            proof {
                assert(log::spec_msgs_view(r@) =~= Seq::<log::MessageView>::empty());
            }
            return r;
        },
    };
    match jsonval::tree_get(&parsed, "messages") {
        Some(m) => match m {
            jsonval::JsonTree::Arr(a) => log::messages_from(a, "type", "timestamp", 0),
            _ => {
                let r: Vec<LogMessage> = Vec::new();
                proof {
                    jsonval::lemma_view_arr(m);
                    assert(log::spec_msgs_view(r@) =~= Seq::<log::MessageView>::empty());
                }
                r
            },
        },
        None => {
            let r: Vec<LogMessage> = Vec::new();
            proof {
                assert(log::spec_msgs_view(r@) =~= Seq::<log::MessageView>::empty());
            }
            r
        },
    }
}

} // verus!
