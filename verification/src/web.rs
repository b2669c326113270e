//! The verifiable core of the web surface: status payloads, the control
//! channel grammar (a NUL-prefixed JSON command), terminal-size clamping,
//! and the routing decision for every incoming WebSocket frame. The HTTP
//! router and the socket plumbing live outside the library and act on the
//! decisions made here.

use vstd::prelude::*;

verus! {

use vstd::string::StringSliceAdditionalSpecFns;

use crate::jsonval;
use crate::text;

/// Smallest accepted terminal dimension.
pub const MIN_TERMINAL_SIZE: u16 = 1;

/// Largest accepted terminal dimension.
pub const MAX_TERMINAL_SIZE: u16 = 500;

pub struct AgentStatus {
    pub name: String,
    pub state: String,
}

pub struct StatusResponse {
    pub agents: Vec<AgentStatus>,
}

pub struct StartAgentRequest {
    pub working_dir: Option<String>,
}

pub struct StopAgentRequest {
    pub force: Option<bool>,
}

/// A control command from the browser.
pub enum ControlCommand {
    Resize { cols: u16, rows: u16 },
}

/// What the socket loop must do with one incoming frame.
pub enum WsAction {
    /// Forward a clamped resize to the PTY.
    Resize { cols: u16, rows: u16 },
    /// Write these bytes to the PTY as user input.
    Input(Vec<u8>),
    /// Log and drop the frame.
    Ignore,
}

pub open spec fn spec_clamp_dim(v: u16) -> u16 {
    if v < MIN_TERMINAL_SIZE {
        MIN_TERMINAL_SIZE
    } else if v > MAX_TERMINAL_SIZE {
        MAX_TERMINAL_SIZE
    } else {
        v
    }
}

/// Clamp both dimensions into `[1, 500]`. Resize is terminal
/// synchronization, not user input, so it is honored even on read-only
/// sockets.
pub fn clamp_resize(cols: u16, rows: u16) -> (r: (u16, u16))
    ensures
        r.0 == spec_clamp_dim(cols),
        r.1 == spec_clamp_dim(rows),
{
    let c = if cols < MIN_TERMINAL_SIZE {
        MIN_TERMINAL_SIZE
    } else if cols > MAX_TERMINAL_SIZE {
        MAX_TERMINAL_SIZE
    } else {
        cols
    };
    let r = if rows < MIN_TERMINAL_SIZE {
        MIN_TERMINAL_SIZE
    } else if rows > MAX_TERMINAL_SIZE {
        MAX_TERMINAL_SIZE
    } else {
        rows
    };
    (c, r)
}

/// The resize a control document denotes: a JSON object whose `type` is
/// `resize` with integral `cols` and `rows` that fit a `u16`; anything else
/// — malformed JSON, an unknown `type`, missing fields, floats, negatives,
/// out-of-range numbers — denotes nothing, as strict deserialization would
/// reject it.
pub open spec fn spec_control_resize(doc: Option<jsonval::JsonView>) -> Option<(u16, u16)> {
    match doc {
        None => None,
        Some(t) => {
            if jsonval::spec_get_text(t, "type"@) == Some("resize"@) {
                match (jsonval::spec_get_u64(t, "cols"@), jsonval::spec_get_u64(t, "rows"@)) {
                    (Some(c), Some(w)) => if c <= u16::MAX && w <= u16::MAX {
                        Some((c as u16, w as u16))
                    } else {
                        None
                    },
                    _ => None,
                }
            } else {
                None
            }
        },
    }
}

/// Parses one control command, per `spec_control_resize`.
pub fn parse_control_command(json_str: &str) -> (r: Option<ControlCommand>)
    ensures
        match spec_control_resize(jsonval::json_tree_of(json_str@)) {
            Some((c, w)) => r matches Some(ControlCommand::Resize { cols, rows }) && cols == c
                && rows == w,
            None => r is None,
        },
{
    let parsed = match jsonval::parse_json_tree(json_str) {
        Some(t) => t,
        None => {
            return None;
        },
    };
    let kind = match jsonval::tree_get_text(&parsed, "type") {
        Some(s) => s,
        None => {
            return None;
        },
    };
    let kv = text::chars_of(kind.as_str());
    let resize_kw = text::chars_of("resize");
    if !text::chars_eq(&kv, &resize_kw) {
        return None;
    }
    let cols = match jsonval::tree_get_u64(&parsed, "cols") {
        Some(n) => n,
        None => {
            return None;
        },
    };
    let rows = match jsonval::tree_get_u64(&parsed, "rows") {
        Some(n) => n,
        None => {
            return None;
        },
    };
    if cols > u16::MAX as u64 || rows > u16::MAX as u64 {
        return None;
    }
    Some(ControlCommand::Resize { cols: cols as u16, rows: rows as u16 })
}

/// Routes one incoming text frame. A NUL-prefixed frame is a control
/// command: a valid resize comes back clamped into `[1, 500]`, anything else
/// is dropped, and a control frame never becomes input. Other text is input
/// exactly when input is enabled.
pub fn route_text_frame(frame: &str, input_enabled: bool) -> (r: WsAction)
    ensures
        !text::spec_starts_with(frame@, seq!['\u{0}']) ==> if input_enabled {
            r matches WsAction::Input(b) && b@ == frame.spec_bytes()
        } else {
            r is Ignore
        },
        text::spec_starts_with(frame@, seq!['\u{0}']) ==> (
        match spec_control_resize(jsonval::json_tree_of(frame@.skip(1))) {
            Some((c, w)) => r matches WsAction::Resize { cols, rows } && cols == spec_clamp_dim(c)
                && rows == spec_clamp_dim(w),
            None => r is Ignore,
        }),
        r matches WsAction::Resize { cols, rows } ==> (MIN_TERMINAL_SIZE <= cols
            <= MAX_TERMINAL_SIZE && MIN_TERMINAL_SIZE <= rows <= MAX_TERMINAL_SIZE),
{
    let fv = text::chars_of(frame);
    let is_control = fv.len() > 0 && fv[0] == '\u{0}';
    proof {
        if is_control {
            assert(frame@.take(1) =~= seq!['\u{0}']);
        } else {
            if frame@.len() >= 1 && frame@.take(1) == seq!['\u{0}'] {
                assert(frame@.take(1)[0] == frame@[0]);
            }
        }
    }
    if is_control {
        let rest = text::copy_range(&fv, 1, fv.len());
        let json_str = text::string_of(&rest);
        proof {
            assert(json_str@ =~= frame@.skip(1));
        }
        match parse_control_command(json_str.as_str()) {
            Some(cmd) => match cmd {
                ControlCommand::Resize { cols, rows } => {
                    let (c, w) = clamp_resize(cols, rows);
                    WsAction::Resize { cols: c, rows: w }
                },
            },
            None => WsAction::Ignore,
        }
    } else if input_enabled {
        WsAction::Input(frame_bytes(frame))
    } else {
        WsAction::Ignore
    }
}

/// Routes one incoming binary frame: input exactly when input is enabled.
pub fn route_binary_frame(data: Vec<u8>, input_enabled: bool) -> (r: WsAction)
    ensures
        input_enabled ==> (r matches WsAction::Input(b) && b@ == data@),
        !input_enabled ==> r is Ignore,
{
    if input_enabled {
        WsAction::Input(data)
    } else {
        WsAction::Ignore
    }
}

/// The UTF-8 bytes of a text frame.
fn frame_bytes(s: &str) -> (r: Vec<u8>)
    ensures
        r@ == s.spec_bytes(),
{
    let b = s.as_bytes();
    let mut r: Vec<u8> = Vec::new();
    let mut i: usize = 0;
    while i < b.len()
        invariant
            i <= b@.len(),
            b@ == s.spec_bytes(),
            r@ == b@.take(i as int),
        decreases b@.len() - i,
    {
        r.push(b[i]);
        assert(r@ =~= b@.take(i + 1));
        i += 1;
    }
    assert(b@.take(b@.len() as int) =~= b@);
    r
}

} // verus!
