//! The whole-file JSON session store: each session file holds a `messages`
//! array (or an alternate `turns` array) and the provider answers polls from
//! the suffix of the message list past the caller's cursor. Reading files
//! and directories is the host's job; everything here works on the parsed
//! messages.

use vstd::prelude::*;

verus! {

use crate::jsonval;
use crate::log;
use crate::log::LogEntry;
use crate::log::LogMessage;
use crate::log::ProviderConfig;
use crate::path_mapper;
use crate::path_mapper::PathMapper;

/// The store root: the configured `path_pattern` when one is given, else the
/// provider's default location.
pub open spec fn spec_root_of(config: Option<&ProviderConfig>, default: Seq<char>) -> Seq<char> {
    match config {
        Some(c) => match c.path_pattern {
            Some(p) => p@,
            None => default,
        },
        None => default,
    }
}

/// The store root as a path: the configured pattern when one is given, else
/// `default`, normalized for the host.
pub fn root_from(config: Option<&ProviderConfig>, default: &str, wsl: bool) -> (r: String)
    ensures
        exists|h: Option<Seq<char>>|
            r@ == #[trigger] path_mapper::spec_normalize(spec_root_of(config, default@), h, wsl),
{
    match config {
        Some(c) => match &c.path_pattern {
            Some(p) => {
                let lp = PathMapper::normalize(p.as_str(), wsl);
                proof {
                    let h = choose|h: Option<Seq<char>>|
                        lp@ == path_mapper::spec_normalize(p@, h, wsl);
                    assert(lp@ == path_mapper::spec_normalize(
                        spec_root_of(config, default@),
                        h,
                        wsl,
                    ));
                }
                lp
            },
            None => {
                let lp = PathMapper::normalize(default, wsl);
                proof {
                    let h = choose|h: Option<Seq<char>>|
                        lp@ == path_mapper::spec_normalize(default@, h, wsl);
                    assert(lp@ == path_mapper::spec_normalize(
                        spec_root_of(config, default@),
                        h,
                        wsl,
                    ));
                }
                lp
            },
        },
        None => {
            let lp = PathMapper::normalize(default, wsl);
            proof {
                let h = choose|h: Option<Seq<char>>|
                    lp@ == path_mapper::spec_normalize(default@, h, wsl);
                assert(lp@ == path_mapper::spec_normalize(spec_root_of(config, default@), h, wsl));
            }
            lp
        },
    }
}

pub struct OpenCodeLogProvider {
    pub log_path: String,
    pub current_offset: u64,
}

impl OpenCodeLogProvider {
    /// The provider rooted at the configured pattern, or at the default
    /// store location, normalized for the host.
    pub fn new(config: Option<&ProviderConfig>, wsl: bool) -> (r: Self)
        ensures
            r.current_offset == 0,
            exists|h: Option<Seq<char>>|
                r.log_path@ == #[trigger] path_mapper::spec_normalize(
                    spec_root_of(config, "~/.local/share/opencode/storage"@),
                    h,
                    wsl,
                ),
    {
        let log_path = root_from(config, "~/.local/share/opencode/storage", wsl);
        OpenCodeLogProvider { log_path, current_offset: 0 }
    }

    pub fn default_log_path(wsl: bool) -> (r: String)
        ensures
            exists|h: Option<Seq<char>>|
                r@ == path_mapper::spec_normalize("~/.local/share/opencode/storage"@, h, wsl),
    {
        PathMapper::normalize("~/.local/share/opencode/storage", wsl)
    }

    /// The directory the host watches for session files.
    pub fn get_watch_path(&self) -> (r: String)
        ensures
            r@ == self.log_path@,
    {
        self.log_path.clone()
    }

    pub fn get_current_offset(&self) -> (r: u64)
        ensures
            r == self.current_offset,
    {
        self.current_offset
    }

    /// The last assistant message at or past `since_offset` (a message
    /// index); on a hit the provider's cursor advances to the total message
    /// count, as the host will next poll from there.
    pub fn get_latest_reply_from(
        &mut self,
        entries: &Vec<LogMessage>,
        since_offset: u64,
        inode: Option<u64>,
    ) -> (r: Option<LogEntry>)
        ensures
            final(self).log_path == old(self).log_path,
            match log::spec_latest_idx(entries@, since_offset as int, false) {
                Some(k) => r matches Some(e) && e.content@ == entries@[k].content@ && e.offset == k
                    + 1 && e.timestamp_ms == entries@[k].timestamp_ms && e.inode == inode && final(self).current_offset == entries@.len(),
                None => r is None && final(self).current_offset == old(self).current_offset,
            },
    {
        let r = log::find_latest_reply(entries, since_offset, false, inode);
        if r.is_some() {
            self.current_offset = entries.len() as u64;
        }
        r
    }

    /// The most recent `count` turns, oldest first, roles as stored.
    pub fn get_history_from(&self, entries: &Vec<LogMessage>, count: usize) -> (r: Vec<
        log::HistoryEntry,
    >)
        ensures
            r@.len() == if count <= entries@.len() {
                count as int
            } else {
                entries@.len() as int
            },
            forall|i: int|
                0 <= i < r@.len() ==> {
                    let src = entries@[entries@.len() - r@.len() + i];
                    #[trigger] r@[i].role@ == src.role@ && r@[i].content@ == src.content@
                        && r@[i].timestamp_ms == src.timestamp_ms
                },
    {
        log::history_from_messages(entries, count, false)
    }
}

/// The messages of one whole-file session document: the `messages` array
/// with roles under `role`, timestamps under `timestamp`; or, when there is
/// no `messages` member, the alternate `turns` array with `created_at`
/// timestamps. A malformed document, a non-array member, or a missing or
/// unparseable timestamp degrade exactly as stated.
pub open spec fn spec_session_messages(doc: Option<jsonval::JsonView>, fallback: i64) -> Seq<
    log::MessageView,
> {
    match doc {
        None => Seq::empty(),
        Some(t) => match jsonval::spec_get(t, "messages"@) {
            Some(m) => match m {
                jsonval::JsonView::Arr(a) => log::spec_messages_from(
                    a,
                    "role"@,
                    "timestamp"@,
                    fallback,
                ),
                _ => Seq::empty(),
            },
            None => match jsonval::spec_get(t, "turns"@) {
                Some(u) => match u {
                    jsonval::JsonView::Arr(a) => log::spec_messages_from(
                        a,
                        "role"@,
                        "created_at"@,
                        fallback,
                    ),
                    _ => Seq::empty(),
                },
                None => Seq::empty(),
            },
        },
    }
}

/// Parses one whole-file session document; a missing or malformed timestamp
/// falls back to `fallback_ms`.
pub fn parse_session_json(content: &str, fallback_ms: i64) -> (r: Vec<LogMessage>)
    ensures
        log::spec_msgs_view(r@) == spec_session_messages(
            jsonval::json_tree_of(content@),
            fallback_ms,
        ),
{
    let parsed = match jsonval::parse_json_tree(content) {
        Some(t) => t,
        None => {
            let r: Vec<LogMessage> = Vec::new();
            proof {
                assert(log::spec_msgs_view(r@) =~= Seq::<log::MessageView>::empty());
            }
            return r;
        },
    };
    match jsonval::tree_get(&parsed, "messages") {
        Some(m) => match m {
            jsonval::JsonTree::Arr(a) => log::messages_from(a, "role", "timestamp", fallback_ms),
            _ => {
                let r: Vec<LogMessage> = Vec::new();
                proof {
                    jsonval::lemma_view_arr(m);
                    assert(log::spec_msgs_view(r@) =~= Seq::<log::MessageView>::empty());
                }
                r
            },
        },
        None => match jsonval::tree_get(&parsed, "turns") {
            Some(u) => match u {
                jsonval::JsonTree::Arr(a) => log::messages_from(
                    a,
                    "role",
                    "created_at",
                    fallback_ms,
                ),
                _ => {
                    let r: Vec<LogMessage> = Vec::new();
                    proof {
                        jsonval::lemma_view_arr(u);
                        assert(log::spec_msgs_view(r@) =~= Seq::<log::MessageView>::empty());
                    }
                    r
                },
            },
            None => {
                let r: Vec<LogMessage> = Vec::new();
                proof {
                    assert(log::spec_msgs_view(r@) =~= Seq::<log::MessageView>::empty());
                }
                r
            },
        },
    }
}

} // verus!
