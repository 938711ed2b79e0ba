//! Discord rich presence: what the presence says, the JSON texts sent over
//! Discord's local IPC pipe, its frame format, and the decisions of the
//! long-lived presence worker.

use vstd::prelude::*;
use vstd::string::*;

use crate::state::{copy_opt_string, opt_string_view};
use crate::text::{chars_of, decimal, hex_lower_digit, push_char, string_from_chars, u64_to_decimal};

verus! {

// ---------------------------------------------------------------- presence

/// What the presence should show.
#[derive(Debug, Clone)]
pub struct Presence {
    pub icons_hidden: bool,
    pub taskbar_hidden: bool,
    pub windows_hidden: bool,
    pub active_profile: Option<String>,
}

/// Mathematical model of [`Presence`].
pub struct PresenceView {
    pub icons_hidden: bool,
    pub taskbar_hidden: bool,
    pub windows_hidden: bool,
    pub active_profile: Option<Seq<char>>,
}

impl View for Presence {
    type V = PresenceView;

    open spec fn view(&self) -> PresenceView {
        PresenceView {
            icons_hidden: self.icons_hidden,
            taskbar_hidden: self.taskbar_hidden,
            windows_hidden: self.windows_hidden,
            active_profile: opt_string_view(self.active_profile),
        }
    }
}

/// The model of an optional presence.
pub open spec fn opt_presence_view(p: Option<Presence>) -> Option<PresenceView> {
    match p {
        Some(x) => Some(x@),
        None => None,
    }
}

/// A copy of a presence.
pub fn copy_presence(p: &Presence) -> (r: Presence)
    ensures
        r@ == p@,
{
    Presence {
        icons_hidden: p.icons_hidden,
        taskbar_hidden: p.taskbar_hidden,
        windows_hidden: p.windows_hidden,
        active_profile: copy_opt_string(&p.active_profile),
    }
}

/// A copy of an optional presence.
pub fn copy_opt_presence(p: &Option<Presence>) -> (r: Option<Presence>)
    ensures
        opt_presence_view(r) == opt_presence_view(*p),
{
    match p {
        Some(x) => Some(copy_presence(x)),
        None => None,
    }
}

/// The presence message for a state: `None` (clear the presence) when
/// nothing is hidden, else what is hidden and the active profile.
pub open spec fn presence_for(
    icons: bool,
    taskbar: bool,
    windows: bool,
    profile: Option<Seq<char>>,
) -> Option<PresenceView> {
    if !icons && !taskbar && !windows {
        None
    } else {
        Some(
            PresenceView {
                icons_hidden: icons,
                taskbar_hidden: taskbar,
                windows_hidden: windows,
                active_profile: profile,
            },
        )
    }
}

/// The message that updates the presence: it is cleared (`None`) when
/// nothing is hidden.
pub fn set_rich_presence(
    icons_hidden: bool,
    taskbar_hidden: bool,
    windows_hidden: bool,
    active_profile: Option<String>,
) -> (r: Option<Presence>)
    ensures
        opt_presence_view(r) == presence_for(
            icons_hidden,
            taskbar_hidden,
            windows_hidden,
            opt_string_view(active_profile),
        ),
{
    if !icons_hidden && !taskbar_hidden && !windows_hidden {
        return clear_rich_presence();
    }
    Some(Presence { icons_hidden, taskbar_hidden, windows_hidden, active_profile })
}

/// The message that clears the presence.
pub fn clear_rich_presence() -> (r: Option<Presence>)
    ensures
        r is None,
{
    None
}

// ---------------------------------------------------------------- presence text

/// The names of the hidden things, in the order icons, taskbar, windows.
pub open spec fn hidden_parts(icons: bool, taskbar: bool, windows: bool) -> Seq<Seq<char>> {
    let a = if icons { seq!["desktop icons"@] } else { Seq::empty() };
    let b = if taskbar { a.push("the taskbar"@) } else { a };
    if windows { b.push("app windows"@) } else { b }
}

/// The hidden things as an English list: "a", "a & b", or "a, b & c".
pub open spec fn hidden_list_spec(icons: bool, taskbar: bool, windows: bool) -> Seq<char> {
    let p = hidden_parts(icons, taskbar, windows);
    if p.len() == 0 {
        Seq::empty()
    } else if p.len() == 1 {
        p[0]
    } else if p.len() == 2 {
        p[0] + " & "@ + p[1]
    } else {
        p[0] + ", "@ + p[1] + " & "@ + p[2]
    }
}

/// Lists what is hidden, like "desktop icons, the taskbar & app windows".
pub fn hidden_list(icons: bool, taskbar: bool, windows: bool) -> (r: String)
    ensures
        r@ == hidden_list_spec(icons, taskbar, windows),
{
    let mut parts: Vec<&str> = Vec::new();
    if icons {
        parts.push("desktop icons");
    }
    if taskbar {
        parts.push("the taskbar");
    }
    if windows {
        parts.push("app windows");
    }
    assert(parts@.map_values(|s: &str| s@) =~= hidden_parts(icons, taskbar, windows));
    let ghost p = hidden_parts(icons, taskbar, windows);
    assert(parts@.len() == p.len());
    assert(forall|i: int| 0 <= i < p.len() ==> parts@[i]@ == #[trigger] p[i]) by {
        assert(forall|i: int| 0 <= i < p.len() ==> parts@.map_values(|s: &str| s@)[i] == #[trigger] p[i]);
    }
    if parts.len() == 0 {
        String::new()
    } else if parts.len() == 1 {
        String::from_str(parts[0])
    } else if parts.len() == 2 {
        let mut s = String::from_str(parts[0]);
        s.append(" & ");
        s.append(parts[1]);
        s
    } else {
        let mut s = String::from_str(parts[0]);
        s.append(", ");
        s.append(parts[1]);
        s.append(" & ");
        s.append(parts[2]);
        s
    }
}

/// The longest text Discord accepts in a presence field.
pub open spec fn max_field_chars() -> nat {
    128
}

/// A presence field as Discord accepts it: unchanged up to 128 characters,
/// else its first 127 characters and an ellipsis.
pub open spec fn clamp_spec(s: Seq<char>) -> Seq<char> {
    if s.len() <= 128 {
        s
    } else {
        s.take(127).push('\u{2026}')
    }
}

/// Shortens a presence field to what Discord accepts.
pub fn clamp(s: String) -> (r: String)
    ensures
        r@ == clamp_spec(s@),
        r@.len() <= max_field_chars(),
{
    let cs = chars_of(s.as_str());
    if cs.len() <= 128 {
        return s;
    }
    let head = crate::text::sub_chars(&cs, 0, 127);
    let mut out = string_from_chars(head.as_slice());
    push_char(&mut out, '\u{2026}');
    out
}

/// The presence's first line: "Hiding" and the list of hidden things.
pub open spec fn details_spec(p: PresenceView) -> Seq<char> {
    clamp_spec("Hiding "@ + hidden_list_spec(p.icons_hidden, p.taskbar_hidden, p.windows_hidden))
}

/// The presence's second line: the active profile, or "Custom setup".
pub open spec fn state_line_spec(p: PresenceView) -> Seq<char> {
    clamp_spec(
        match p.active_profile {
            Some(name) => "Profile: "@ + name,
            None => "Custom setup"@,
        },
    )
}

/// The presence's first line.
pub fn details_line(p: &Presence) -> (r: String)
    ensures
        r@ == details_spec(p@),
{
    let list = hidden_list(p.icons_hidden, p.taskbar_hidden, p.windows_hidden);
    let mut s = String::from_str("Hiding ");
    s.append(list.as_str());
    clamp(s)
}

/// The presence's second line.
pub fn state_line(p: &Presence) -> (r: String)
    ensures
        r@ == state_line_spec(p@),
{
    let s = match &p.active_profile {
        Some(name) => {
            let mut s = String::from_str("Profile: ");
            s.append(name.as_str());
            s
        },
        None => String::from_str("Custom setup"),
    };
    clamp(s)
}

// ---------------------------------------------------------------- JSON text

/// How a JSON writer writes one character inside a string: quote and
/// backslash escaped, the control characters below U+0020 as `\b`, `\t`,
/// `\n`, `\f`, `\r` or `\u00XX`, everything else unchanged.
pub open spec fn json_escape_char(c: char) -> Seq<char> {
    let v = c as u32;
    if c == '"' {
        seq!['\\', '"']
    } else if c == '\\' {
        seq!['\\', '\\']
    } else if v == 8 {
        seq!['\\', 'b']
    } else if v == 9 {
        seq!['\\', 't']
    } else if v == 10 {
        seq!['\\', 'n']
    } else if v == 12 {
        seq!['\\', 'f']
    } else if v == 13 {
        seq!['\\', 'r']
    } else if v < 32 {
        seq!['\\', 'u', '0', '0', hex_lower_digit((v / 16) as int), hex_lower_digit((v % 16) as int)]
    } else {
        seq![c]
    }
}

/// The escaped contents of a JSON string.
pub open spec fn json_escape(s: Seq<char>) -> Seq<char>
    decreases s.len(),
{
    if s.len() == 0 {
        Seq::empty()
    } else {
        json_escape(s.drop_last()) + json_escape_char(s.last())
    }
}

/// A JSON string literal holding `s`.
pub open spec fn json_string(s: Seq<char>) -> Seq<char> {
    seq!['"'] + json_escape(s) + seq!['"']
}

fn hex_char(v: u32) -> (c: char)
    requires
        v < 16,
    ensures
        c == hex_lower_digit(v as int),
{
    if v < 10 {
        ((v + 48) as u8) as char
    } else {
        ((v + 87) as u8) as char
    }
}

fn push_escaped_char(out: &mut String, c: char)
    ensures
        final(out)@ == old(out)@ + json_escape_char(c),
{
    let v = c as u32;
    if c == '"' {
        push_char(out, '\\');
        push_char(out, '"');
    } else if c == '\\' {
        push_char(out, '\\');
        push_char(out, '\\');
    } else if v == 8 {
        push_char(out, '\\');
        push_char(out, 'b');
    } else if v == 9 {
        push_char(out, '\\');
        push_char(out, 't');
    } else if v == 10 {
        push_char(out, '\\');
        push_char(out, 'n');
    } else if v == 12 {
        push_char(out, '\\');
        push_char(out, 'f');
    } else if v == 13 {
        push_char(out, '\\');
        push_char(out, 'r');
    } else if v < 32 {
        push_char(out, '\\');
        push_char(out, 'u');
        push_char(out, '0');
        push_char(out, '0');
        push_char(out, hex_char(v / 16));
        push_char(out, hex_char(v % 16));
    } else {
        push_char(out, c);
    }
    assert(out@ =~= old(out)@ + json_escape_char(c));
}

/// Appends `s` as a JSON string literal.
pub fn push_json_string(out: &mut String, s: &str)
    ensures
        final(out)@ == old(out)@ + json_string(s@),
{
    let cs = chars_of(s);
    push_char(out, '"');
    let ghost start = out@;
    let mut i: usize = 0;
    while i < cs.len()
        invariant
            i <= cs.len(),
            cs@ == s@,
            out@ == start + json_escape(cs@.take(i as int)),
        decreases cs.len() - i,
    {
        assert(cs@.take(i + 1).drop_last() =~= cs@.take(i as int));
        push_escaped_char(out, cs[i]);
        i = i + 1;
        assert(out@ =~= start + json_escape(cs@.take(i as int)));
    }
    assert(cs@.take(cs.len() as int) =~= cs@);
    push_char(out, '"');
    assert(out@ =~= old(out)@ + json_string(s@));
}

/// The activity that the presence sends, as compact JSON with its keys in
/// sorted order: the art asset, the button linking to the project, the two
/// lines, and the time the hiding session started.
pub open spec fn activity_json_spec(p: PresenceView, started_at: u64) -> Seq<char> {
    "{\"assets\":{\"large_image\":\"logo\",\"large_text\":\"HideDesktopApps \u{2014} clear your desktop with one hotkey\"},\"buttons\":[{\"label\":\"Get HideDesktopApps\",\"url\":\"https://github.com/Londopy/HideDesktopApps\"}],\"details\":"@
        + json_string(details_spec(p)) + ",\"state\":"@ + json_string(state_line_spec(p))
        + ",\"timestamps\":{\"start\":"@ + decimal(started_at as nat) + "}}"@
}

/// The activity JSON for a presence whose session started at `started_at`
/// (seconds since the Unix epoch).
pub fn activity_json(p: &Presence, started_at: u64) -> (r: String)
    ensures
        r@ == activity_json_spec(p@, started_at),
{
    let mut out = String::from_str(
        "{\"assets\":{\"large_image\":\"logo\",\"large_text\":\"HideDesktopApps \u{2014} clear your desktop with one hotkey\"},\"buttons\":[{\"label\":\"Get HideDesktopApps\",\"url\":\"https://github.com/Londopy/HideDesktopApps\"}],\"details\":",
    );
    let details = details_line(p);
    push_json_string(&mut out, details.as_str());
    out.append(",\"state\":");
    let state = state_line(p);
    push_json_string(&mut out, state.as_str());
    out.append(",\"timestamps\":{\"start\":");
    let n = u64_to_decimal(started_at);
    out.append(n.as_str());
    out.append("}}");
    out
}

/// The handshake that opens a connection.
pub open spec fn handshake_spec() -> Seq<char> {
    "{\"client_id\":\"1506489357534761111\",\"v\":1}"@
}

/// The handshake text sent when connecting.
pub fn handshake_payload() -> (r: String)
    ensures
        r@ == handshake_spec(),
{
    String::from_str("{\"client_id\":\"1506489357534761111\",\"v\":1}")
}

/// The `SET_ACTIVITY` command: the process id, the activity JSON (`null`
/// clears the presence) and the command's nonce as a string.
pub open spec fn set_activity_spec(pid: u32, activity: Option<Seq<char>>, nonce: u64) -> Seq<
    char,
> {
    "{\"args\":{\"activity\":"@ + (match activity {
        Some(a) => a,
        None => "null"@,
    }) + ",\"pid\":"@ + decimal(pid as nat) + "},\"cmd\":\"SET_ACTIVITY\",\"nonce\":"@
        + json_string(decimal(nonce as nat)) + "}"@
}

/// The text of a `SET_ACTIVITY` command.
pub fn set_activity_payload(pid: u32, activity: Option<&str>, nonce: u64) -> (r: String)
    ensures
        r@ == set_activity_spec(
            pid,
            match activity {
                Some(a) => Some(a@),
                None => None,
            },
            nonce,
        ),
{
    let mut out = String::from_str("{\"args\":{\"activity\":");
    match activity {
        Some(a) => out.append(a),
        None => out.append("null"),
    }
    out.append(",\"pid\":");
    let p = u64_to_decimal(pid as u64);
    out.append(p.as_str());
    out.append("},\"cmd\":\"SET_ACTIVITY\",\"nonce\":");
    let n = u64_to_decimal(nonce);
    push_json_string(&mut out, n.as_str());
    out.append("}");
    out
}

// ---------------------------------------------------------------- frames

/// The opcode of an ordinary frame (the first one is `READY`).
pub open spec fn op_frame() -> u32 {
    1
}

/// The opcode with which Discord closes the connection.
pub open spec fn op_close() -> u32 {
    2
}

/// The opcode of a ping, answered by a pong (opcode 4) with the same body.
pub open spec fn op_ping() -> u32 {
    3
}

/// The largest frame body accepted.
pub open spec fn max_frame_bytes() -> nat {
    65536
}

/// The four little-endian bytes of `x`.
pub open spec fn le32(x: u32) -> Seq<u8> {
    seq![
        (x % 256) as u8,
        ((x / 256) % 256) as u8,
        ((x / 65536) % 256) as u8,
        ((x / 16777216) % 256) as u8,
    ]
}

/// The value of four little-endian bytes.
pub open spec fn from_le32(b: Seq<u8>) -> u32 {
    (b[0] as nat + b[1] as nat * 256 + b[2] as nat * 65536 + b[3] as nat * 16777216) as u32
}

/// A frame: the opcode and the body length, each four little-endian bytes,
/// then the body. The length is taken modulo 2^32.
pub open spec fn frame_spec(opcode: u32, body: Seq<u8>) -> Seq<u8> {
    le32(opcode) + le32((body.len() % 4294967296) as u32) + body
}

fn le32_bytes(x: u32) -> (r: Vec<u8>)
    ensures
        r@ == le32(x),
{
    let mut v: Vec<u8> = Vec::new();
    v.push((x % 256) as u8);
    v.push(((x / 256) % 256) as u8);
    v.push(((x / 65536) % 256) as u8);
    v.push(((x / 16777216) % 256) as u8);
    assert(v@ =~= le32(x));
    v
}

/// Frames a body for the pipe.
pub fn encode_frame(opcode: u32, body: &[u8]) -> (r: Vec<u8>)
    ensures
        r@ == frame_spec(opcode, body@),
{
    let mut msg = le32_bytes(opcode);
    let len = (body.len() as u64 % 4294967296) as u32;
    let mut l = le32_bytes(len);
    msg.append(&mut l);
    let mut i: usize = 0;
    let ghost head = msg@;
    while i < body.len()
        invariant
            i <= body.len(),
            msg@ == head + body@.take(i as int),
        decreases body.len() - i,
    {
        msg.push(body[i]);
        i = i + 1;
        assert(msg@ =~= head + body@.take(i as int));
    }
    assert(body@.take(body.len() as int) =~= body@);
    msg
}

/// Frames a text for the pipe: its UTF-8 bytes are the body.
pub fn frame_text(opcode: u32, text: &str) -> (r: Vec<u8>)
    ensures
        r@ == frame_spec(opcode, text.spec_bytes()),
{
    encode_frame(opcode, text.as_bytes())
}

/// What a frame header says: the opcode and the body length, or an error
/// when the length is over the limit.
pub open spec fn decode_header_spec(h: Seq<u8>) -> Option<(u32, nat)> {
    let len = from_le32(h.subrange(4, 8));
    if len > max_frame_bytes() {
        None
    } else {
        Some((from_le32(h.subrange(0, 4)), len as nat))
    }
}

/// Reads an eight-byte frame header: `None` when the body would be larger
/// than the limit.
pub fn decode_frame_header(h: &[u8]) -> (r: Option<(u32, usize)>)
    requires
        h@.len() == 8,
    ensures
        match r {
            Some((op, len)) => decode_header_spec(h@) == Some((op, len as nat)),
            None => decode_header_spec(h@) is None,
        },
{
    let op = (h[0] as u64 + h[1] as u64 * 256 + h[2] as u64 * 65536 + h[3] as u64 * 16777216)
        as u32;
    let len = h[4] as u64 + h[5] as u64 * 256 + h[6] as u64 * 65536 + h[7] as u64 * 16777216;
    assert(h@.subrange(0, 4)[0] == h@[0] && h@.subrange(0, 4)[1] == h@[1] && h@.subrange(0, 4)[2]
        == h@[2] && h@.subrange(0, 4)[3] == h@[3]);
    assert(h@.subrange(4, 8)[0] == h@[4] && h@.subrange(4, 8)[1] == h@[5] && h@.subrange(4, 8)[2]
        == h@[6] && h@.subrange(4, 8)[3] == h@[7]);
    if len > 65536 {
        return None;
    }
    Some((op, len as usize))
}

/// A header written by `encode_frame` reads back as the opcode and length
/// it was written with.
pub proof fn lemma_frame_header_roundtrip(opcode: u32, body: Seq<u8>)
    requires
        body.len() <= max_frame_bytes(),
    ensures
        decode_header_spec(frame_spec(opcode, body).take(8)) == Some((opcode, body.len())),
{
    let a = le32(opcode);
    let len = (body.len() % 4294967296) as u32;
    assert(len == body.len());
    let b = le32(len);
    let f = frame_spec(opcode, body);
    assert(f == a + b + body);
    let h = f.take(8);
    assert(h.subrange(0, 4) =~= a);
    assert(h.subrange(4, 8) =~= b);
    lemma_le32_roundtrip(opcode);
    lemma_le32_roundtrip(len);
}

proof fn lemma_le32_roundtrip(x: u32)
    ensures
        from_le32(le32(x)) == x,
{
    let b = le32(x);
    assert(b[0] as nat + b[1] as nat * 256 + b[2] as nat * 65536 + b[3] as nat * 16777216 == x)
        by (nonlinear_arith)
        requires
            b[0] == (x % 256) as u8,
            b[1] == ((x / 256) % 256) as u8,
            b[2] == ((x / 65536) % 256) as u8,
            b[3] == ((x / 16777216) % 256) as u8,
    ;
}

// ---------------------------------------------------------------- connection steps

/// What to do with a frame that arrives while waiting for `READY`.
#[derive(Debug, Clone)]
pub enum HandshakeStep {
    /// `READY` arrived: the connection is usable.
    Ready,
    /// Discord closed the connection; the reason.
    Closed(String),
    /// A ping: answer with a pong carrying this body.
    Pong(String),
    /// Nothing usable yet; keep waiting until the deadline.
    Wait,
}

/// The step for a frame read during the handshake (`None`: none arrived).
pub fn handshake_step(frame: Option<(u32, String)>) -> (r: HandshakeStep)
    ensures
        match frame {
            Some((op, body)) => if op == op_frame() {
                r is Ready
            } else if op == op_close() {
                r matches HandshakeStep::Closed(b) && b@ == body@
            } else if op == op_ping() {
                r matches HandshakeStep::Pong(b) && b@ == body@
            } else {
                r is Wait
            },
            None => r is Wait,
        },
{
    match frame {
        Some((op, body)) => {
            if op == 1 {
                HandshakeStep::Ready
            } else if op == 2 {
                HandshakeStep::Closed(body)
            } else if op == 3 {
                HandshakeStep::Pong(body)
            } else {
                HandshakeStep::Wait
            }
        },
        None => HandshakeStep::Wait,
    }
}

/// What to do with a frame that arrives on an open connection.
#[derive(Debug, Clone)]
pub enum PumpStep {
    /// A ping: answer with a pong carrying this body.
    Pong(String),
    /// Discord closed the connection; the reason.
    Closed(String),
    /// Anything else is ignored.
    Ignore,
}

/// The step for a frame read on an open connection.
pub fn pump_step(opcode: u32, body: String) -> (r: PumpStep)
    ensures
        if opcode == op_ping() {
            r matches PumpStep::Pong(b) && b@ == body@
        } else if opcode == op_close() {
            r matches PumpStep::Closed(b) && b@ == body@
        } else {
            r is Ignore
        },
{
    if opcode == 3 {
        PumpStep::Pong(body)
    } else if opcode == 2 {
        PumpStep::Closed(body)
    } else {
        PumpStep::Ignore
    }
}


// ---------------------------------------------------------------- worker

/// Whether two presences are the same.
pub fn presence_eq(a: &Presence, b: &Presence) -> (r: bool)
    ensures
        r == (a@ == b@),
{
    let same_profile = match (&a.active_profile, &b.active_profile) {
        (Some(x), Some(y)) => x.eq(y),
        (None, None) => true,
        _ => false,
    };
    a.icons_hidden == b.icons_hidden && a.taskbar_hidden == b.taskbar_hidden && a.windows_hidden
        == b.windows_hidden && same_profile
}

/// Whether two optional presences are the same.
pub fn opt_presence_eq(a: &Option<Presence>, b: &Option<Presence>) -> (r: bool)
    ensures
        r == (opt_presence_view(*a) == opt_presence_view(*b)),
{
    match (a, b) {
        (Some(x), Some(y)) => presence_eq(x, y),
        (None, None) => true,
        _ => false,
    }
}

/// The shortest wait before reconnecting, in milliseconds.
pub open spec fn min_backoff_ms() -> u64 {
    2000
}

/// The longest wait before reconnecting, in milliseconds.
pub open spec fn max_backoff_ms() -> u64 {
    60000
}

/// The presence worker's state: whether it holds a connection, what the
/// presence should show, what Discord is known to show (`None`: unknown),
/// when the hiding session started (seconds since the epoch), and when and
/// after what wait (milliseconds) it may next try to connect.
#[derive(Debug)]
pub struct Worker {
    pub connected: bool,
    pub desired: Option<Presence>,
    pub shown: Option<Option<Presence>>,
    pub started_at: u64,
    pub next_retry_ms: u64,
    pub backoff_ms: u64,
}

/// The model of what Discord is known to show.
pub open spec fn shown_view(s: Option<Option<Presence>>) -> Option<Option<PresenceView>> {
    match s {
        Some(p) => Some(opt_presence_view(p)),
        None => None,
    }
}

impl Worker {
    /// The reconnect wait stays between two seconds and a minute.
    pub open spec fn wf(&self) -> bool {
        min_backoff_ms() <= self.backoff_ms <= max_backoff_ms()
    }

    /// Whether Discord may not be showing what it should.
    pub open spec fn needs_update(&self) -> bool {
        shown_view(self.shown) != Some(opt_presence_view(self.desired))
    }

    /// A worker with no connection and nothing to show.
    pub fn new(now_s: u64, now_ms: u64) -> (r: Worker)
        ensures
            r.wf(),
            !r.connected,
            r.desired is None,
            r.shown is None,
            r.started_at == now_s,
            r.next_retry_ms == now_ms,
            r.backoff_ms == min_backoff_ms(),
    {
        Worker {
            connected: false,
            desired: None,
            shown: None,
            started_at: now_s,
            next_retry_ms: now_ms,
            backoff_ms: 2000,
        }
    }

    /// A new presence was asked for. The session timer restarts when a
    /// presence is set after none was.
    pub fn on_message(&mut self, next: Option<Presence>, now_s: u64)
        ensures
            opt_presence_view(final(self).desired) == opt_presence_view(next),
            final(self).started_at == (if old(self).desired is None && next is Some {
                now_s
            } else {
                old(self).started_at
            }),
            final(self).connected == old(self).connected,
            shown_view(final(self).shown) == shown_view(old(self).shown),
            final(self).next_retry_ms == old(self).next_retry_ms,
            final(self).backoff_ms == old(self).backoff_ms,
    {
        if self.desired.is_none() && next.is_some() {
            self.started_at = now_s;
        }
        self.desired = next;
    }

    /// The connection broke: drop it, forget what Discord shows, and wait
    /// the current backoff before reconnecting.
    pub fn on_connection_lost(&mut self, now_ms: u64)
        ensures
            !final(self).connected,
            final(self).shown is None,
            final(self).next_retry_ms == now_ms.saturating_add(old(self).backoff_ms),
            final(self).backoff_ms == old(self).backoff_ms,
            opt_presence_view(final(self).desired) == opt_presence_view(old(self).desired),
            final(self).started_at == old(self).started_at,
    {
        self.connected = false;
        self.shown = None;
        self.next_retry_ms = now_ms.saturating_add(self.backoff_ms);
    }

    /// Whether to try connecting now: only while disconnected, with
    /// something to show, and once the retry time has come.
    pub fn wants_connect(&self, now_ms: u64) -> (r: bool)
        ensures
            r == (!self.connected && self.desired is Some && now_ms >= self.next_retry_ms),
    {
        !self.connected && self.desired.is_some() && now_ms >= self.next_retry_ms
    }

    /// The outcome of a connection attempt. Success resets the backoff;
    /// failure schedules the next try after the backoff and doubles it, up
    /// to a minute.
    pub fn on_connect(&mut self, ok: bool, now_ms: u64)
        requires
            old(self).wf(),
        ensures
            final(self).wf(),
            ok ==> final(self).connected && final(self).shown is None && final(self).backoff_ms
                == min_backoff_ms() && final(self).next_retry_ms == old(self).next_retry_ms,
            !ok ==> !final(self).connected && shown_view(final(self).shown) == shown_view(
                old(self).shown,
            ) && final(self).next_retry_ms == now_ms.saturating_add(old(self).backoff_ms)
                && final(self).backoff_ms == (if 2 * old(self).backoff_ms <= max_backoff_ms() {
                2 * old(self).backoff_ms
            } else {
                max_backoff_ms() as int
            }),
            opt_presence_view(final(self).desired) == opt_presence_view(old(self).desired),
            final(self).started_at == old(self).started_at,
    {
        if ok {
            self.connected = true;
            self.shown = None;
            self.backoff_ms = 2000;
        } else {
            self.connected = false;
            self.next_retry_ms = now_ms.saturating_add(self.backoff_ms);
            let doubled = self.backoff_ms * 2;
            self.backoff_ms = if doubled <= 60000 { doubled } else { 60000 };
        }
    }

    /// The activity to push now, if any: only when connected and Discord
    /// may not show what it should. The inner `None` clears the presence.
    pub fn pending_activity(&self) -> (r: Option<Option<Presence>>)
        ensures
            match r {
                Some(p) => self.connected && self.needs_update() && opt_presence_view(p)
                    == opt_presence_view(self.desired),
                None => !self.connected || !self.needs_update(),
            },
    {
        if !self.connected {
            return None;
        }
        let same = match &self.shown {
            Some(s) => opt_presence_eq(s, &self.desired),
            None => false,
        };
        if same {
            None
        } else {
            Some(copy_opt_presence(&self.desired))
        }
    }

    /// The outcome of pushing the desired activity. Success records it as
    /// shown; failure drops the connection and schedules a retry.
    pub fn on_activity_sent(&mut self, ok: bool, now_ms: u64)
        ensures
            ok ==> shown_view(final(self).shown) == Some(opt_presence_view(old(self).desired))
                && final(self).connected == old(self).connected && final(self).next_retry_ms
                == old(self).next_retry_ms,
            !ok ==> !final(self).connected && final(self).shown is None
                && final(self).next_retry_ms == now_ms.saturating_add(old(self).backoff_ms),
            final(self).backoff_ms == old(self).backoff_ms,
            opt_presence_view(final(self).desired) == opt_presence_view(old(self).desired),
            final(self).started_at == old(self).started_at,
    {
        if ok {
            self.shown = Some(copy_opt_presence(&self.desired));
        } else {
            self.on_connection_lost(now_ms);
        }
    }
}

/// Once an activity has been pushed successfully, nothing more is pending
/// until the desired presence changes.
pub proof fn lemma_sent_activity_settles(before: Worker, after: Worker, now_ms: u64)
    requires
        before.connected,
        shown_view(after.shown) == Some(opt_presence_view(before.desired)),
        after.connected == before.connected,
        opt_presence_view(after.desired) == opt_presence_view(before.desired),
    ensures
        !after.needs_update(),
{
}

} // verus!

