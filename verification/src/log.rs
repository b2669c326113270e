//! Shared log-provider types and the selection logic every provider uses:
//! which parsed message answers a poll, how history is cut, how a session
//! lock's baseline is computed, and which session file in a directory is
//! current. The providers hand these functions plain parsed values; reading
//! files is the host's job.

use vstd::prelude::*;

verus! {

use crate::jsonval;
use crate::jsonval::JsonView;
use crate::text;
use crate::timestamp;

/// One harvested assistant reply. `offset` is the provider's opaque monotone
/// cursor: a byte position for line-delimited stores, one past the message
/// index for whole-file stores. Timestamps are UTC milliseconds.
pub struct LogEntry {
    pub content: String,
    pub offset: u64,
    pub timestamp_ms: i64,
    pub inode: Option<u64>,
}

/// One conversation turn, role normalized where the store demands it.
pub struct HistoryEntry {
    pub role: String,
    pub content: String,
    pub timestamp_ms: i64,
}

/// A pin on the session file current at dispatch time.
pub struct LockedSession {
    pub file_path: String,
    pub baseline_offset: u64,
}

/// One parsed message of a session store.
pub struct LogMessage {
    pub role: String,
    pub content: String,
    pub timestamp_ms: i64,
}

/// One directory entry as the host read it: its file name, its full path,
/// and its modification time in UTC milliseconds.
pub struct FileMeta {
    pub name: String,
    pub path: String,
    pub mtime_ms: i64,
}

/// Provider settings: an optional override of the store's root path.
pub struct ProviderConfig {
    pub path_pattern: Option<String>,
}

/// The ghost image of one parsed message.
pub struct MessageView {
    pub role: Seq<char>,
    pub content: Seq<char>,
    pub timestamp_ms: i64,
}

pub open spec fn spec_msg_view(m: LogMessage) -> MessageView {
    MessageView { role: m.role@, content: m.content@, timestamp_ms: m.timestamp_ms }
}

pub open spec fn spec_msgs_view(ms: Seq<LogMessage>) -> Seq<MessageView> {
    Seq::new(ms.len(), |i: int| spec_msg_view(ms[i]))
}

/// The message one element of a store yields: a string role under
/// `role_key`, a string `content`, and the timestamp under `ts_key` —
/// RFC 3339 where parseable, `fallback` otherwise; `None` when role or
/// content is missing, as the stores interleave bookkeeping records.
pub open spec fn spec_message_of(
    t: JsonView,
    role_key: Seq<char>,
    ts_key: Seq<char>,
    fallback: i64,
) -> Option<MessageView> {
    match (jsonval::spec_get_text(t, role_key), jsonval::spec_get_text(t, "content"@)) {
        (Some(role), Some(content)) => Some(
            MessageView {
                role,
                content,
                timestamp_ms: match jsonval::spec_get_text(t, ts_key) {
                    Some(s) => match timestamp::rfc3339_millis(s) {
                        Some(ms) => ms,
                        None => fallback,
                    },
                    None => fallback,
                },
            },
        ),
        _ => None,
    }
}

/// The messages of an array of store elements, in order, elements without
/// role or content dropped.
pub open spec fn spec_messages_from(
    arr: Seq<JsonView>,
    role_key: Seq<char>,
    ts_key: Seq<char>,
    fallback: i64,
) -> Seq<MessageView>
    decreases arr.len(),
{
    if arr.len() == 0 {
        Seq::empty()
    } else {
        let rest = spec_messages_from(arr.skip(1), role_key, ts_key, fallback);
        match spec_message_of(arr[0], role_key, ts_key, fallback) {
            Some(m) => seq![m] + rest,
            None => rest,
        }
    }
}

/// Extracts one message from one store element.
pub fn message_of(t: &jsonval::JsonTree, role_key: &str, ts_key: &str, fallback_ms: i64) -> (r:
    Option<LogMessage>)
    ensures
        match r {
            Some(m) => spec_message_of(t.view(), role_key@, ts_key@, fallback_ms) == Some(
                spec_msg_view(m),
            ),
            None => spec_message_of(t.view(), role_key@, ts_key@, fallback_ms) is None,
        },
{
    let role = match jsonval::tree_get_text(t, role_key) {
        Some(s) => s,
        None => {
            return None;
        },
    };
    let content = match jsonval::tree_get_text(t, "content") {
        Some(s) => s,
        None => {
            return None;
        },
    };
    let timestamp_ms = match jsonval::tree_get_text(t, ts_key) {
        Some(s) => match timestamp::parse_rfc3339_millis(s.as_str()) {
            Some(ms) => ms,
            None => fallback_ms,
        },
        None => fallback_ms,
    };
    Some(LogMessage { role, content, timestamp_ms })
}

/// Extracts every message of an array of store elements, in order.
pub fn messages_from(
    arr: &Vec<jsonval::JsonTree>,
    role_key: &str,
    ts_key: &str,
    fallback_ms: i64,
) -> (r: Vec<LogMessage>)
    ensures
        spec_msgs_view(r@) == spec_messages_from(
            jsonval::view_trees(arr@),
            role_key@,
            ts_key@,
            fallback_ms,
        ),
{
    let ghost av = jsonval::view_trees(arr@);
    proof {
        jsonval::lemma_view_trees(arr@);
    }
    let mut out: Vec<LogMessage> = Vec::new();
    let mut i: usize = 0;
    proof {
        assert(av.skip(0) =~= av);
        assert(spec_msgs_view(out@) =~= Seq::<MessageView>::empty());
        assert(Seq::<MessageView>::empty() + spec_messages_from(av, role_key@, ts_key@, fallback_ms)
            =~= spec_messages_from(av, role_key@, ts_key@, fallback_ms));
    }
    while i < arr.len()
        invariant
            i <= arr@.len(),
            av == jsonval::view_trees(arr@),
            av.len() == arr@.len(),
            forall|k: int| 0 <= k < arr@.len() ==> av[k] == (#[trigger] arr@[k]).view(),
            spec_messages_from(av, role_key@, ts_key@, fallback_ms) == spec_msgs_view(out@)
                + spec_messages_from(av.skip(i as int), role_key@, ts_key@, fallback_ms),
        decreases arr@.len() - i,
    {
        let ghost rest = av.skip(i as int);
        let ghost pre = out@;
        proof {
            assert(rest[0] == av[i as int]);
            assert(av[i as int] == arr@[i as int].view());
            assert(rest.skip(1) =~= av.skip(i + 1));
        }
        match message_of(&arr[i], role_key, ts_key, fallback_ms) {
            Some(m) => {
                let ghost mv = spec_msg_view(m);
                out.push(m);
                proof {
                    assert(spec_msgs_view(out@) =~= spec_msgs_view(pre).push(mv));
                    assert(spec_msgs_view(pre).push(mv) =~= spec_msgs_view(pre) + seq![mv]);
                    assert(spec_msgs_view(pre) + (seq![mv] + spec_messages_from(
                        av.skip(i + 1),
                        role_key@,
                        ts_key@,
                        fallback_ms,
                    )) =~= (spec_msgs_view(pre) + seq![mv]) + spec_messages_from(
                        av.skip(i + 1),
                        role_key@,
                        ts_key@,
                        fallback_ms,
                    ));
                }
            },
            None => {},
        }
        i += 1;
    }
    proof {
        assert(av.skip(av.len() as int) =~= Seq::<JsonView>::empty());
        assert(spec_msgs_view(out@) + spec_messages_from(
            Seq::<JsonView>::empty(),
            role_key@,
            ts_key@,
            fallback_ms,
        ) =~= spec_msgs_view(out@));
    }
    out
}

/// The role names that count as the assistant's, with the synonyms some
/// stores use.
pub open spec fn spec_is_assistant_role(role: Seq<char>, synonyms: bool) -> bool {
    role == "assistant"@ || (synonyms && (role == "model"@ || role == "gemini"@))
}

pub fn is_assistant_role(role: &str, synonyms: bool) -> (r: bool)
    ensures
        r == spec_is_assistant_role(role@, synonyms),
{
    let rv = text::chars_of(role);
    let a = text::chars_of("assistant");
    if text::chars_eq(&rv, &a) {
        return true;
    }
    if synonyms {
        let m = text::chars_of("model");
        if text::chars_eq(&rv, &m) {
            return true;
        }
        let g = text::chars_of("gemini");
        if text::chars_eq(&rv, &g) {
            return true;
        }
    }
    false
}

/// A message answers a poll when its role is the assistant's and its content
/// is not blank.
pub open spec fn spec_qualifies(m: LogMessage, synonyms: bool) -> bool {
    spec_is_assistant_role(m.role@, synonyms) && !text::spec_blank(m.content@)
}

fn qualifies(m: &LogMessage, synonyms: bool) -> (r: bool)
    ensures
        r == spec_qualifies(*m, synonyms),
{
    if !is_assistant_role(m.role.as_str(), synonyms) {
        return false;
    }
    let cv = text::chars_of(m.content.as_str());
    !text::is_blank(&cv)
}

/// The index of the last qualifying message at or past `since`, if any.
pub open spec fn spec_latest_idx(entries: Seq<LogMessage>, since: int, synonyms: bool) -> Option<
    int,
>
    decreases entries.len(),
{
    if entries.len() == 0 {
        None
    } else if entries.len() - 1 >= since && spec_qualifies(entries.last(), synonyms) {
        Some(entries.len() - 1)
    } else {
        spec_latest_idx(entries.drop_last(), since, synonyms)
    }
}

/// Law: the poll answer is `None` exactly when no qualifying assistant
/// message sits at or past the cursor; otherwise it is the last such
/// message.
pub proof fn lemma_latest_idx(entries: Seq<LogMessage>, since: int, synonyms: bool)
    ensures
        spec_latest_idx(entries, since, synonyms) is None <==> forall|i: int|
            0 <= i < entries.len() && since <= i ==> !spec_qualifies(
                #[trigger] entries[i],
                synonyms,
            ),
        spec_latest_idx(entries, since, synonyms) matches Some(k) ==> 0 <= k < entries.len()
            && since <= k && spec_qualifies(entries[k], synonyms) && forall|i: int|
            k < i < entries.len() ==> !spec_qualifies(#[trigger] entries[i], synonyms),
    decreases entries.len(),
{
    if entries.len() == 0 {
    } else if entries.len() - 1 >= since && spec_qualifies(entries.last(), synonyms) {
    } else {
        let d = entries.drop_last();
        lemma_latest_idx(d, since, synonyms);
        assert(spec_latest_idx(entries, since, synonyms) == spec_latest_idx(d, since, synonyms));
        assert(d =~= entries.take(entries.len() - 1));
        assert forall|i: int| 0 <= i < d.len() implies d[i] == entries[i] by {
            assert(entries.take(entries.len() - 1)[i] == entries[i]);
        }
        if spec_latest_idx(d, since, synonyms) is None {
            assert forall|i: int|
                0 <= i < entries.len() && since <= i implies !spec_qualifies(
                #[trigger] entries[i],
                synonyms,
            ) by {
                if i < d.len() {
                    assert(d[i] == entries[i]);
                    assert(!spec_qualifies(d[i], synonyms));
                } else {
                    assert(entries[i] == entries.last());
                }
            }
        } else {
            let k = spec_latest_idx(d, since, synonyms)->Some_0;
            assert(d[k] == entries[k]);
            assert forall|i: int|
                k < i < entries.len() implies !spec_qualifies(#[trigger] entries[i], synonyms) by {
                if i < d.len() {
                    assert(d[i] == entries[i]);
                    assert(!spec_qualifies(d[i], synonyms));
                } else {
                    assert(entries[i] == entries.last());
                }
            }
        }
        if forall|i: int|
            0 <= i < entries.len() && since <= i ==> !spec_qualifies(
                #[trigger] entries[i],
                synonyms,
            ) {
            assert forall|i: int|
                0 <= i < d.len() && since <= i implies !spec_qualifies(
                #[trigger] d[i],
                synonyms,
            ) by {
                assert(d[i] == entries[i]);
            }
            assert(spec_latest_idx(d, since, synonyms) is None);
        }
    }
}

/// The last qualifying message at or past `since` (a message index), as a
/// `LogEntry` whose offset is one past that message's index.
pub fn find_latest_reply(
    entries: &Vec<LogMessage>,
    since_offset: u64,
    synonyms: bool,
    inode: Option<u64>,
) -> (r: Option<LogEntry>)
    ensures
        match spec_latest_idx(entries@, since_offset as int, synonyms) {
            Some(k) => r matches Some(e) && e.content@ == entries@[k].content@ && e.offset == k + 1
                && e.timestamp_ms == entries@[k].timestamp_ms && e.inode == inode,
            None => r is None,
        },
{
    let mut k = entries.len();
    proof {
        assert(entries@.take(entries@.len() as int) =~= entries@);
    }
    while k > 0
        invariant
            k <= entries@.len(),
            spec_latest_idx(entries@, since_offset as int, synonyms) == spec_latest_idx(
                entries@.take(k as int),
                since_offset as int,
                synonyms,
            ),
        decreases k,
    {
        let ghost pre = entries@.take(k as int);
        assert(pre.last() == entries@[k - 1]);
        if k as u64 - 1 >= since_offset && qualifies(&entries[k - 1], synonyms) {
            let e = &entries[k - 1];
            return Some(
                LogEntry {
                    content: e.content.clone(),
                    offset: (k as u64 - 1) + 1,
                    timestamp_ms: e.timestamp_ms,
                    inode,
                },
            );
        }
        proof {
            assert(pre.drop_last() =~= entries@.take(k - 1));
        }
        k -= 1;
    }
    proof {
        assert(entries@.take(0) =~= Seq::<LogMessage>::empty());
    }
    None
}

/// The index of the last assistant message strictly newer than `baseline`
/// with non-blank content, if any.
pub open spec fn spec_latest_ts_idx(entries: Seq<LogMessage>, baseline_ms: i64, synonyms: bool) -> Option<
    int,
>
    decreases entries.len(),
{
    if entries.len() == 0 {
        None
    } else if spec_qualifies(entries.last(), synonyms) && entries.last().timestamp_ms
        > baseline_ms {
        Some(entries.len() - 1)
    } else {
        spec_latest_ts_idx(entries.drop_last(), baseline_ms, synonyms)
    }
}

/// The last qualifying message strictly newer than the baseline timestamp.
pub fn find_reply_by_timestamp(
    entries: &Vec<LogMessage>,
    baseline_ms: i64,
    synonyms: bool,
    inode: Option<u64>,
) -> (r: Option<LogEntry>)
    ensures
        match spec_latest_ts_idx(entries@, baseline_ms, synonyms) {
            Some(k) => r matches Some(e) && e.content@ == entries@[k].content@ && e.offset == k + 1
                && e.timestamp_ms == entries@[k].timestamp_ms && e.inode == inode,
            None => r is None,
        },
{
    let mut k = entries.len();
    proof {
        assert(entries@.take(entries@.len() as int) =~= entries@);
    }
    while k > 0
        invariant
            k <= entries@.len(),
            spec_latest_ts_idx(entries@, baseline_ms, synonyms) == spec_latest_ts_idx(
                entries@.take(k as int),
                baseline_ms,
                synonyms,
            ),
        decreases k,
    {
        let ghost pre = entries@.take(k as int);
        assert(pre.last() == entries@[k - 1]);
        let q = qualifies(&entries[k - 1], synonyms);
        if q && entries[k - 1].timestamp_ms > baseline_ms {
            let e = &entries[k - 1];
            return Some(
                LogEntry {
                    content: e.content.clone(),
                    offset: (k as u64 - 1) + 1,
                    timestamp_ms: e.timestamp_ms,
                    inode,
                },
            );
        }
        proof {
            assert(pre.drop_last() =~= entries@.take(k - 1));
        }
        k -= 1;
    }
    proof {
        assert(entries@.take(0) =~= Seq::<LogMessage>::empty());
    }
    None
}

/// The role under which a turn is reported: the assistant synonyms collapse
/// to `assistant` when normalization is on.
pub open spec fn spec_normalized_role(role: Seq<char>, normalize: bool) -> Seq<char> {
    if normalize && (role == "model"@ || role == "gemini"@) {
        "assistant"@
    } else {
        role
    }
}

/// The most recent `count` turns, oldest first.
pub fn history_from_messages(entries: &Vec<LogMessage>, count: usize, normalize: bool) -> (r: Vec<
    HistoryEntry,
>)
    ensures
        r@.len() == if count <= entries@.len() {
            count as int
        } else {
            entries@.len() as int
        },
        forall|i: int|
            0 <= i < r@.len() ==> {
                let src = entries@[entries@.len() - r@.len() + i];
                #[trigger] r@[i].role@ == spec_normalized_role(src.role@, normalize) && r@[i].content@
                    == src.content@ && r@[i].timestamp_ms == src.timestamp_ms
            },
{
    let start = if count <= entries.len() {
        entries.len() - count
    } else {
        0
    };
    let mut r: Vec<HistoryEntry> = Vec::new();
    let mut i: usize = start;
    while i < entries.len()
        invariant
            start <= i <= entries@.len(),
            r@.len() == i - start,
            forall|j: int|
                0 <= j < r@.len() ==> {
                    let src = entries@[start + j];
                    #[trigger] r@[j].role@ == spec_normalized_role(src.role@, normalize)
                        && r@[j].content@ == src.content@ && r@[j].timestamp_ms == src.timestamp_ms
                },
        decreases entries@.len() - i,
    {
        let e = &entries[i];
        let role = if normalize && {
            let rv = text::chars_of(e.role.as_str());
            let m = text::chars_of("model");
            let g = text::chars_of("gemini");
            text::chars_eq(&rv, &m) || text::chars_eq(&rv, &g)
        } {
            "assistant".to_owned()
        } else {
            e.role.clone()
        };
        r.push(HistoryEntry { role, content: e.content.clone(), timestamp_ms: e.timestamp_ms });
        i += 1;
    }
    r
}

/// The baseline timestamp of a locked file: the newest timestamp in it that
/// is not the epoch placeholder, or the epoch when none is.
pub open spec fn spec_baseline_ts(entries: Seq<LogMessage>) -> i64
    decreases entries.len(),
{
    if entries.len() == 0 {
        0
    } else if entries.last().timestamp_ms != 0 {
        entries.last().timestamp_ms
    } else {
        spec_baseline_ts(entries.drop_last())
    }
}

pub fn baseline_ts(entries: &Vec<LogMessage>) -> (r: i64)
    ensures
        r == spec_baseline_ts(entries@),
{
    let mut k = entries.len();
    proof {
        assert(entries@.take(entries@.len() as int) =~= entries@);
    }
    while k > 0
        invariant
            k <= entries@.len(),
            spec_baseline_ts(entries@) == spec_baseline_ts(entries@.take(k as int)),
        decreases k,
    {
        let ghost pre = entries@.take(k as int);
        assert(pre.last() == entries@[k - 1]);
        if entries[k - 1].timestamp_ms != 0 {
            return entries[k - 1].timestamp_ms;
        }
        proof {
            assert(pre.drop_last() =~= entries@.take(k - 1));
        }
        k -= 1;
    }
    proof {
        assert(entries@.take(0) =~= Seq::<LogMessage>::empty());
    }
    0
}

/// `session-*.json` file names.
pub open spec fn spec_is_session_file(name: Seq<char>) -> bool {
    text::spec_starts_with(name, "session-"@) && name.len() >= ".json"@.len() && name.skip(
        name.len() - ".json"@.len(),
    ) == ".json"@
}

fn is_session_file(name: &str) -> (r: bool)
    ensures
        r == spec_is_session_file(name@),
{
    let nv = text::chars_of(name);
    let prefix = text::chars_of("session-");
    let suffix = text::chars_of(".json");
    if !text::starts_with(&nv, &prefix) {
        return false;
    }
    if nv.len() < suffix.len() {
        return false;
    }
    let tail_part = text::copy_range(&nv, nv.len() - suffix.len(), nv.len());
    proof {
        assert(tail_part@ =~= name@.skip(name@.len() - ".json"@.len()));
    }
    text::chars_eq(&tail_part, &suffix)
}

/// The current session file of a directory: among the `session-*.json`
/// entries with a positive modification time, the first one carrying the
/// newest time; `None` when there is none.
pub fn pick_latest_session_file(files: &Vec<FileMeta>) -> (r: Option<usize>)
    ensures
        match r {
            Some(k) => 0 <= k < files@.len() && spec_is_session_file(files@[k as int].name@)
                && files@[k as int].mtime_ms > 0 && forall|j: int|
                0 <= j < files@.len() && spec_is_session_file(#[trigger] files@[j].name@)
                    ==> files@[j].mtime_ms <= files@[k as int].mtime_ms,
            None => forall|j: int|
                0 <= j < files@.len() ==> !(spec_is_session_file(#[trigger] files@[j].name@)
                    && files@[j].mtime_ms > 0),
        },
{
    let mut best: Option<usize> = None;
    let mut best_time: i64 = 0;
    let mut i: usize = 0;
    while i < files.len()
        invariant
            i <= files@.len(),
            match best {
                Some(k) => 0 <= k < i && spec_is_session_file(files@[k as int].name@)
                    && files@[k as int].mtime_ms == best_time && best_time > 0 && forall|j: int|
                    0 <= j < i && spec_is_session_file(#[trigger] files@[j].name@)
                        ==> files@[j].mtime_ms <= best_time,
                None => best_time == 0 && forall|j: int|
                    0 <= j < i ==> !(spec_is_session_file(#[trigger] files@[j].name@)
                        && files@[j].mtime_ms > 0),
            },
        decreases files@.len() - i,
    {
        if is_session_file(files[i].name.as_str()) && files[i].mtime_ms > best_time {
            best = Some(i);
            best_time = files[i].mtime_ms;
        }
        i += 1;
    }
    best
}

/// The most recently modified file with the given extension, later entries
/// winning ties, as a whole-directory store is scanned.
pub fn pick_latest_by_ext(files: &Vec<FileMeta>, ext: &str) -> (r: Option<usize>)
    ensures
        match r {
            Some(k) => 0 <= k < files@.len() && spec_ends_with(files@[k as int].name@, ext@)
                && forall|j: int|
                0 <= j < files@.len() && spec_ends_with(#[trigger] files@[j].name@, ext@)
                    ==> files@[j].mtime_ms <= files@[k as int].mtime_ms,
            None => forall|j: int|
                0 <= j < files@.len() ==> !spec_ends_with(#[trigger] files@[j].name@, ext@),
        },
{
    let ev = text::chars_of(ext);
    let mut best: Option<usize> = None;
    let mut i: usize = 0;
    while i < files.len()
        invariant
            i <= files@.len(),
            ev@ == ext@,
            match best {
                Some(k) => 0 <= k < i && spec_ends_with(files@[k as int].name@, ext@) && forall|
                    j: int,
                |
                    0 <= j < i && spec_ends_with(#[trigger] files@[j].name@, ext@)
                        ==> files@[j].mtime_ms <= files@[k as int].mtime_ms,
                None => forall|j: int|
                    0 <= j < i ==> !spec_ends_with(#[trigger] files@[j].name@, ext@),
            },
        decreases files@.len() - i,
    {
        let nv = text::chars_of(files[i].name.as_str());
        let has_ext = if nv.len() >= ev.len() {
            let tail_part = text::copy_range(&nv, nv.len() - ev.len(), nv.len());
            proof {
                assert(tail_part@ =~= files@[i as int].name@.skip(
                    files@[i as int].name@.len() - ext@.len(),
                ));
            }
            text::chars_eq(&tail_part, &ev)
        } else {
            false
        };
        if has_ext {
            let better = match best {
                Some(k) => files[i].mtime_ms >= files[k].mtime_ms,
                None => true,
            };
            if better {
                best = Some(i);
            }
        }
        i += 1;
    }
    best
}

/// `s` ends with `suffix`.
pub open spec fn spec_ends_with(s: Seq<char>, suffix: Seq<char>) -> bool {
    s.len() >= suffix.len() && s.skip(s.len() - suffix.len()) == suffix
}

} // verus!
