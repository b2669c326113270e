//! The line-delimited session store: one JSON object per line with `role`,
//! `content` and an RFC 3339 `timestamp`. The poll cursor is a byte
//! position; the host seeks there and hands this provider the bytes that
//! follow, and the returned offset points one past the last assistant line
//! parsed so the next poll resumes without re-reading.

use vstd::prelude::*;

verus! {

use crate::jsonval;
use crate::log;
use crate::log::LogEntry;
use crate::log::LogMessage;
use crate::log::ProviderConfig;
use crate::opencode;
use crate::path_mapper;
use crate::path_mapper::PathMapper;

pub struct CodexLogProvider {
    pub log_path: String,
    pub current_offset: u64,
}

impl CodexLogProvider {
    /// The provider rooted at the configured pattern, or at the default
    /// store location, normalized for the host.
    pub fn new(config: Option<&ProviderConfig>, wsl: bool) -> (r: Self)
        ensures
            r.current_offset == 0,
            exists|h: Option<Seq<char>>|
                r.log_path@ == #[trigger] path_mapper::spec_normalize(
                    opencode::spec_root_of(config, "~/.codex/sessions"@),
                    h,
                    wsl,
                ),
    {
        let log_path = opencode::root_from(config, "~/.codex/sessions", wsl);
        CodexLogProvider { log_path, current_offset: 0 }
    }

    pub fn default_log_path(wsl: bool) -> (r: String)
        ensures
            exists|h: Option<Seq<char>>|
                r@ == path_mapper::spec_normalize("~/.codex/sessions"@, h, wsl),
    {
        PathMapper::normalize("~/.codex/sessions", wsl)
    }

    pub fn get_watch_path(&self) -> (r: String)
        ensures
            r@ == self.log_path@,
    {
        self.log_path.clone()
    }

    pub fn get_current_offset(&self) -> (r: u64)
        ensures
            r == self.current_offset,
    {
        self.current_offset
    }

    /// The last assistant record in the bytes that follow `since_offset` in
    /// the session file, per `spec_latest_jsonl`: each newline-delimited
    /// line is parsed on its own, only `assistant` records count, the last
    /// one wins, and the entry's offset is `since_offset` plus the position
    /// one past that record's line, so the next poll resumes without
    /// re-reading. The cursor advances there on a hit.
    pub fn get_latest_reply_from_bytes(
        &mut self,
        content: &Vec<u8>,
        since_offset: u64,
        fallback_ms: i64,
        inode: Option<u64>,
    ) -> (r: Option<LogEntry>)
        requires
            since_offset + content@.len() <= u64::MAX,
        ensures
            final(self).log_path == old(self).log_path,
            match spec_latest_jsonl(content@, fallback_ms) {
                Some((m, end)) => r matches Some(e) && e.content@ == m.content && e.timestamp_ms
                    == m.timestamp_ms && e.offset == since_offset + end && e.inode == inode
                    && final(self).current_offset == since_offset + end,
                None => r is None && final(self).current_offset == old(self).current_offset,
            },
    {
        let n = content.len();
        let mut pos: usize = 0;
        let mut found: Option<LogEntry> = None;
        let ghost mut found_view: Option<(log::MessageView, int)> = None;
        proof {
            assert(content@.skip(0) =~= content@);
        }
        while pos < n
            invariant
                pos <= n,
                n == content@.len(),
                since_offset + n <= u64::MAX,
                spec_latest_jsonl(content@, fallback_ms) == (
                match spec_latest_jsonl(content@.skip(pos as int), fallback_ms) {
                    Some((m, end)) => Some((m, pos + end)),
                    None => found_view,
                }),
                match found_view {
                    Some((m, end)) => found matches Some(e) && e.content@ == m.content
                        && e.timestamp_ms == m.timestamp_ms && e.offset == since_offset + end
                        && e.inode == inode && 0 < end <= pos,
                    None => found is None,
                },
            decreases n - pos,
        {
            let ghost w = content@.skip(pos as int);
            let mut j: usize = pos;
            while j < n && content[j] != 10u8
                invariant
                    pos <= j <= n,
                    n == content@.len(),
                    forall|k: int| pos <= k < j ==> content@[k] != 10u8,
                decreases n - j,
            {
                j += 1;
            }
            proof {
                assert forall|k: int| 0 <= k < j - pos implies w[k] != 10u8 by {
                    assert(content@[pos + k] != 10u8);
                }
                if j < n {
                    assert(w[j - pos] == content@[j as int]);
                }
                lemma_first_nl_byte_at(w, j - pos);
            }
            let end_pos: usize = if j < n {
                j + 1
            } else {
                n
            };
            let ghost end_rel = end_pos - pos;
            proof {
                assert(w.take(j - pos) =~= content@.subrange(pos as int, j as int));
                assert(w.skip(end_rel) =~= content@.skip(end_pos as int));
            }
            let record = jsonl_record(content, pos, j, fallback_ms);
            let ghost here: Option<(log::MessageView, int)> = (
            match spec_jsonl_record(w.take(j - pos), fallback_ms) {
                Some(m) => if log::spec_is_assistant_role(m.role, false) {
                    Some((m, end_rel))
                } else {
                    None
                },
                None => None,
            });
            match record {
                Some(m) => {
                    if log::is_assistant_role(m.role.as_str(), false) {
                        proof {
                            found_view = Some(
                                (log::spec_msg_view(m), pos as int + end_rel),
                            );
                        }
                        found = Some(
                            LogEntry {
                                content: m.content,
                                offset: since_offset + end_pos as u64,
                                timestamp_ms: m.timestamp_ms,
                                inode,
                            },
                        );
                    } else {
                        proof {
                            found_view = (
                            match spec_latest_jsonl(w, fallback_ms) {
                                Some(_) => found_view,
                                None => found_view,
                            });
                        }
                    }
                },
                None => {},
            }
            proof {
                assert(spec_latest_jsonl(w, fallback_ms) == (
                match spec_latest_jsonl(w.skip(end_rel), fallback_ms) {
                    Some((m, off)) => Some((m, end_rel + off)),
                    None => here,
                }));
            }
            pos = end_pos;
        }
        proof {
            assert(content@.skip(n as int) =~= Seq::<u8>::empty());
        }
        match &found {
            Some(e) => {
                self.current_offset = e.offset;
            },
            None => {},
        }
        found
    }

    /// All parseable records of a session file's bytes, in file order, per
    /// `spec_jsonl_messages`, for history cuts.
    pub fn parse_jsonl(&self, content: &Vec<u8>, fallback_ms: i64) -> (r: Vec<LogMessage>)
        ensures
            log::spec_msgs_view(r@) == spec_jsonl_messages(content@, fallback_ms),
    {
        let n = content.len();
        let mut out: Vec<LogMessage> = Vec::new();
        let mut pos: usize = 0;
        proof {
            assert(content@.skip(0) =~= content@);
            assert(log::spec_msgs_view(out@) =~= Seq::<log::MessageView>::empty());
            assert(Seq::<log::MessageView>::empty() + spec_jsonl_messages(content@, fallback_ms)
                =~= spec_jsonl_messages(content@, fallback_ms));
        }
        while pos < n
            invariant
                pos <= n,
                n == content@.len(),
                spec_jsonl_messages(content@, fallback_ms) == log::spec_msgs_view(out@)
                    + spec_jsonl_messages(content@.skip(pos as int), fallback_ms),
            decreases n - pos,
        {
            let ghost w = content@.skip(pos as int);
            let ghost pre = out@;
            let mut j: usize = pos;
            while j < n && content[j] != 10u8
                invariant
                    pos <= j <= n,
                    n == content@.len(),
                    forall|k: int| pos <= k < j ==> content@[k] != 10u8,
                decreases n - j,
            {
                j += 1;
            }
            proof {
                assert forall|k: int| 0 <= k < j - pos implies w[k] != 10u8 by {
                    assert(content@[pos + k] != 10u8);
                }
                if j < n {
                    assert(w[j - pos] == content@[j as int]);
                }
                lemma_first_nl_byte_at(w, j - pos);
            }
            let end_pos: usize = if j < n {
                j + 1
            } else {
                n
            };
            proof {
                assert(w.take(j - pos) =~= content@.subrange(pos as int, j as int));
                assert(w.skip(end_pos - pos) =~= content@.skip(end_pos as int));
            }
            match jsonl_record(content, pos, j, fallback_ms) {
                Some(m) => {
                    let ghost mv = log::spec_msg_view(m);
                    out.push(m);
                    proof {
                        assert(log::spec_msgs_view(out@) =~= log::spec_msgs_view(pre).push(mv));
                        assert(log::spec_msgs_view(pre).push(mv) =~= log::spec_msgs_view(pre)
                            + seq![mv]);
                        assert(log::spec_msgs_view(pre) + (seq![mv] + spec_jsonl_messages(
                            content@.skip(end_pos as int),
                            fallback_ms,
                        )) =~= (log::spec_msgs_view(pre) + seq![mv]) + spec_jsonl_messages(
                            content@.skip(end_pos as int),
                            fallback_ms,
                        ));
                    }
                },
                None => {},
            }
            pos = end_pos;
        }
        proof {
            assert(content@.skip(n as int) =~= Seq::<u8>::empty());
            assert(log::spec_msgs_view(out@) + spec_jsonl_messages(
                Seq::<u8>::empty(),
                fallback_ms,
            ) =~= log::spec_msgs_view(out@));
        }
        out
    }

    /// The most recent `count` records, oldest first, roles as stored.
    pub fn get_history_from(&self, entries: &Vec<LogMessage>, count: usize) -> (r: Vec<
        log::HistoryEntry,
    >)
        ensures
            r@.len() == if count <= entries@.len() {
                count as int
            } else {
                entries@.len() as int
            },
            forall|i: int|
                0 <= i < r@.len() ==> {
                    let src = entries@[entries@.len() - r@.len() + i];
                    #[trigger] r@[i].role@ == src.role@ && r@[i].content@ == src.content@
                        && r@[i].timestamp_ms == src.timestamp_ms
                },
    {
        log::history_from_messages(entries, count, false)
    }
}

/// Position of the first newline byte in `b`, or `b.len()` when there is
/// none.
pub open spec fn first_nl_byte(b: Seq<u8>) -> nat
    decreases b.len(),
{
    if b.len() == 0 {
        0
    } else if b[0] == 10u8 {
        0
    } else {
        1 + first_nl_byte(b.skip(1))
    }
}

/// `first_nl_byte` is pinned down by any witness position.
proof fn lemma_first_nl_byte_at(b: Seq<u8>, m: int)
    requires
        0 <= m <= b.len(),
        forall|j: int| 0 <= j < m ==> b[j] != 10u8,
        m < b.len() ==> b[m] == 10u8,
    ensures
        first_nl_byte(b) == m,
    decreases b.len(),
{
    if b.len() == 0 {
    } else if b[0] == 10u8 {
        assert(m == 0);
    } else {
        assert(m >= 1);
        assert forall|j: int| 0 <= j < m - 1 implies b.skip(1)[j] != 10u8 by {
            assert(b[j + 1] != 10u8);
        }
        lemma_first_nl_byte_at(b.skip(1), m - 1);
    }
}

/// The record one newline-delimited line yields: a JSON object with string
/// `role` and `content` and an RFC 3339 `timestamp` falling back to
/// `fallback`; `None` for anything else.
pub open spec fn spec_jsonl_record(line: Seq<u8>, fallback: i64) -> Option<log::MessageView> {
    match jsonval::json_tree_of_bytes(line) {
        Some(t) => log::spec_message_of(t, "role"@, "timestamp"@, fallback),
        None => None,
    }
}

/// The last `assistant` record of a byte window and the position one past
/// its line, scanning newline-delimited lines front to back.
pub open spec fn spec_latest_jsonl(b: Seq<u8>, fallback: i64) -> Option<(log::MessageView, int)>
    decreases b.len(),
{
    if b.len() == 0 {
        None
    } else {
        let k = first_nl_byte(b);
        let end = if k < b.len() {
            k as int + 1
        } else {
            b.len() as int
        };
        let here = match spec_jsonl_record(b.take(k as int), fallback) {
            Some(m) => if log::spec_is_assistant_role(m.role, false) {
                Some((m, end))
            } else {
                None
            },
            None => None,
        };
        match spec_latest_jsonl(b.skip(end), fallback) {
            Some((m, off)) => Some((m, end + off)),
            None => here,
        }
    }
}

/// Every parseable record of a byte window, in line order.
pub open spec fn spec_jsonl_messages(b: Seq<u8>, fallback: i64) -> Seq<log::MessageView>
    decreases b.len(),
{
    if b.len() == 0 {
        Seq::empty()
    } else {
        let k = first_nl_byte(b);
        let end = if k < b.len() {
            k as int + 1
        } else {
            b.len() as int
        };
        let rest = spec_jsonl_messages(b.skip(end), fallback);
        match spec_jsonl_record(b.take(k as int), fallback) {
            Some(m) => seq![m] + rest,
            None => rest,
        }
    }
}

/// The record of the line `content[start..end]`, per `spec_jsonl_record`.
fn jsonl_record(content: &Vec<u8>, start: usize, end: usize, fallback_ms: i64) -> (r: Option<
    LogMessage,
>)
    requires
        start <= end <= content@.len(),
    ensures
        match r {
            Some(m) => spec_jsonl_record(content@.subrange(start as int, end as int), fallback_ms)
                == Some(log::spec_msg_view(m)),
            None => spec_jsonl_record(
                content@.subrange(start as int, end as int),
                fallback_ms,
            ) is None,
        },
{
    let mut line: Vec<u8> = Vec::new();
    let mut i: usize = start;
    while i < end
        invariant
            start <= i <= end <= content@.len(),
            line@ == content@.subrange(start as int, i as int),
        decreases end - i,
    {
        line.push(content[i]);
        assert(line@ =~= content@.subrange(start as int, i + 1));
        i += 1;
    }
    match jsonval::parse_json_tree_bytes(line.as_slice()) {
        Some(t) => log::message_of(&t, "role", "timestamp", fallback_ms),
        None => None,
    }
}

} // verus!
