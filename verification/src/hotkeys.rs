//! Hotkey strings such as `"ctrl+alt+h"`: parsing, editing and matching.

use vstd::prelude::*;
use vstd::string::*;

use crate::config::{profiles_view, ProfileConfig, ProfileView};
use crate::text::{
    chars_eq_str, chars_of, eq_ignore_ascii_case, eq_ignore_ascii_case_chars,
    split_chars, split_on, string_from_chars, to_lowercase, to_uppercase, trim, trim_chars,
    lowercase, uppercase,
};

verus! {

// ---------------------------------------------------------------- key codes

/// A key that a hotkey can end in.
#[derive(Debug, Clone, Copy, PartialEq, Eq, Structural)]
pub enum KeyCode {
    /// A letter key, `0` for A up to `25` for Z.
    Letter(u8),
    /// A digit key on the main row, `0` to `9`.
    Digit(u8),
    /// A function key, `1` for F1 up to `12` for F12.
    Function(u8),
}

impl KeyCode {
    /// Whether the key number is in range for its kind.
    pub open spec fn wf(self) -> bool {
        match self {
            KeyCode::Letter(i) => i < 26,
            KeyCode::Digit(d) => d < 10,
            KeyCode::Function(n) => 1 <= n <= 12,
        }
    }
}

/// The character of an ASCII code.
pub open spec fn ch(v: int) -> char {
    (v as u32) as char
}

/// The lower-case token of a key, as hotkey strings spell it: `a` to `z`,
/// `0` to `9`, `f1` to `f12`.
pub open spec fn key_token(k: KeyCode) -> Seq<char> {
    match k {
        KeyCode::Letter(i) => seq![ch(97 + i)],
        KeyCode::Digit(d) => seq![ch(48 + d)],
        KeyCode::Function(n) => if n < 10 {
            seq!['f', ch(48 + n)]
        } else {
            seq!['f', '1', ch(48 + n - 10)]
        },
    }
}

/// The name of a key in the `Code` enumeration of global hotkeys: `KeyA`,
/// `Digit0`, `F1` and so on.
pub open spec fn code_name(k: KeyCode) -> Seq<char> {
    match k {
        KeyCode::Letter(i) => "Key"@.push(ch(65 + i)),
        KeyCode::Digit(d) => "Digit"@.push(ch(48 + d)),
        KeyCode::Function(n) => if n < 10 {
            seq!['F', ch(48 + n)]
        } else {
            seq!['F', '1', ch(48 + n - 10)]
        },
    }
}

/// Whether `c` is a lower-case ASCII letter.
pub open spec fn is_lower_letter(c: char) -> bool {
    'a' <= c && c <= 'z'
}

/// Whether `c` is an ASCII digit.
pub open spec fn is_digit_char(c: char) -> bool {
    '0' <= c && c <= '9'
}

/// The key that a lower-cased key name denotes: a single letter or digit,
/// `digit0` to `digit9`, or `f1` to `f12`.
pub open spec fn parse_key_code_spec(s: Seq<char>) -> Option<KeyCode> {
    if s.len() == 1 && is_lower_letter(s[0]) {
        Some(KeyCode::Letter(((s[0] as u32) - 97) as u8))
    } else if s.len() == 1 && is_digit_char(s[0]) {
        Some(KeyCode::Digit(((s[0] as u32) - 48) as u8))
    } else if s.len() == 6 && s.take(5) == "digit"@ && is_digit_char(s[5]) {
        Some(KeyCode::Digit(((s[5] as u32) - 48) as u8))
    } else if s.len() == 2 && s[0] == 'f' && '1' <= s[1] && s[1] <= '9' {
        Some(KeyCode::Function(((s[1] as u32) - 48) as u8))
    } else if s.len() == 3 && s[0] == 'f' && s[1] == '1' && '0' <= s[2] && s[2] <= '2' {
        Some(KeyCode::Function(((s[2] as u32) - 38) as u8))
    } else {
        None
    }
}

fn ascii_char(v: u32) -> (c: char)
    requires
        v < 128,
    ensures
        c == ch(v as int),
{
    let b = v as u8;
    b as char
}

/// The key that a lower-cased key name denotes, if any.
pub fn parse_key_code(key: &Vec<char>) -> (r: Option<KeyCode>)
    ensures
        r == parse_key_code_spec(key@),
        r matches Some(k) ==> k.wf(),
{
    let n = key.len();
    if n == 1 {
        let c = key[0];
        if 'a' <= c && c <= 'z' {
            return Some(KeyCode::Letter(((c as u32) - 97) as u8));
        }
        if '0' <= c && c <= '9' {
            return Some(KeyCode::Digit(((c as u32) - 48) as u8));
        }
        return None;
    }
    if n == 6 {
        let head = crate::text::sub_chars(key, 0, 5);
        let c = key[5];
        if chars_eq_str(&head, "digit") && '0' <= c && c <= '9' {
            return Some(KeyCode::Digit(((c as u32) - 48) as u8));
        }
        return None;
    }
    if n == 2 && key[0] == 'f' && '1' <= key[1] && key[1] <= '9' {
        return Some(KeyCode::Function(((key[1] as u32) - 48) as u8));
    }
    if n == 3 && key[0] == 'f' && key[1] == '1' && '0' <= key[2] && key[2] <= '2' {
        return Some(KeyCode::Function(((key[2] as u32) - 38) as u8));
    }
    None
}

/// The lower-case token of a key (`a`, `0`, `f12`).
pub fn key_token_string(k: KeyCode) -> (r: String)
    requires
        k.wf(),
    ensures
        r@ == key_token(k),
{
    let mut s = String::new();
    match k {
        KeyCode::Letter(i) => {
            push_one(&mut s, ascii_char(97 + i as u32));
        },
        KeyCode::Digit(d) => {
            push_one(&mut s, ascii_char(48 + d as u32));
        },
        KeyCode::Function(n) => {
            push_one(&mut s, 'f');
            if n < 10 {
                push_one(&mut s, ascii_char(48 + n as u32));
            } else {
                push_one(&mut s, '1');
                push_one(&mut s, ascii_char(38 + n as u32));
            }
        },
    }
    assert(s@ =~= key_token(k));
    s
}

fn push_one(s: &mut String, c: char)
    ensures
        final(s)@ == old(s)@.push(c),
{
    crate::text::push_char(s, c);
}

/// The name of a key in the global-hotkey `Code` enumeration.
pub fn code_name_string(k: KeyCode) -> (r: String)
    requires
        k.wf(),
    ensures
        r@ == code_name(k),
{
    let mut s = String::new();
    match k {
        KeyCode::Letter(i) => {
            s.append("Key");
            push_one(&mut s, ascii_char(65 + i as u32));
        },
        KeyCode::Digit(d) => {
            s.append("Digit");
            push_one(&mut s, ascii_char(48 + d as u32));
        },
        KeyCode::Function(n) => {
            push_one(&mut s, 'F');
            if n < 10 {
                push_one(&mut s, ascii_char(48 + n as u32));
            } else {
                push_one(&mut s, '1');
                push_one(&mut s, ascii_char(38 + n as u32));
            }
        },
    }
    assert(s@ =~= code_name(k));
    s
}

/// Every key's token names that key again.
pub proof fn lemma_key_token_roundtrip(k: KeyCode)
    requires
        k.wf(),
    ensures
        parse_key_code_spec(key_token(k)) == Some(k),
{
    let t = key_token(k);
    match k {
        KeyCode::Letter(i) => {
            assert(t[0] == ch(97 + i));
            assert(((t[0] as u32) - 97) as u8 == i);
        },
        KeyCode::Digit(d) => {
            assert(t[0] == ch(48 + d));
            assert(((t[0] as u32) - 48) as u8 == d);
        },
        KeyCode::Function(n) => {
            if n < 10 {
                assert(t[1] == ch(48 + n));
            } else {
                assert(t[2] == ch(48 + n - 10));
            }
        },
    }
}

// ---------------------------------------------------------------- hotkeys

/// A parsed hotkey: its modifiers and its key.
#[derive(Debug, Clone, Copy, PartialEq, Eq, Structural)]
pub struct Hotkey {
    pub ctrl: bool,
    pub alt: bool,
    pub shift: bool,
    /// The Windows key (also written `super` or `meta`).
    pub win: bool,
    pub key: KeyCode,
}

/// Why a hotkey string was refused; each variant holds the offending text.
#[derive(Debug, Clone)]
pub enum HotkeyError {
    /// Fewer than two `+`-separated parts.
    TooFewParts(String),
    /// A modifier that is not ctrl/control, alt, shift, or win/super/meta.
    UnknownModifier(String),
    /// No modifier at all.
    NoModifier(String),
    /// A key name that is not a letter, digit or F1-F12.
    UnknownKey(String),
}

/// Mathematical model of [`HotkeyError`].
pub enum HotkeyErrorView {
    TooFewParts(Seq<char>),
    UnknownModifier(Seq<char>),
    NoModifier(Seq<char>),
    UnknownKey(Seq<char>),
}

impl View for HotkeyError {
    type V = HotkeyErrorView;

    open spec fn view(&self) -> HotkeyErrorView {
        match self {
            HotkeyError::TooFewParts(s) => HotkeyErrorView::TooFewParts(s@),
            HotkeyError::UnknownModifier(s) => HotkeyErrorView::UnknownModifier(s@),
            HotkeyError::NoModifier(s) => HotkeyErrorView::NoModifier(s@),
            HotkeyError::UnknownKey(s) => HotkeyErrorView::UnknownKey(s@),
        }
    }
}

/// The message shown for a refused hotkey.
pub open spec fn hotkey_error_message(e: HotkeyErrorView) -> Seq<char> {
    match e {
        HotkeyErrorView::TooFewParts(s) => "Hotkey '"@ + s
            + "' must have at least one modifier and one key"@,
        HotkeyErrorView::UnknownModifier(s) => "Unknown modifier: '"@ + s + "'"@,
        HotkeyErrorView::NoModifier(s) => "Hotkey '"@ + s + "' must have at least one modifier"@,
        HotkeyErrorView::UnknownKey(s) => "Unknown key: '"@ + s + "'"@,
    }
}

impl HotkeyError {
    /// The message for this error.
    pub fn message(&self) -> (r: String)
        ensures
            r@ == hotkey_error_message(self@),
    {
        match self {
            HotkeyError::TooFewParts(s) => {
                let mut m = String::from_str("Hotkey '");
                m.append(s.as_str());
                m.append("' must have at least one modifier and one key");
                m
            },
            HotkeyError::UnknownModifier(s) => {
                let mut m = String::from_str("Unknown modifier: '");
                m.append(s.as_str());
                m.append("'");
                m
            },
            HotkeyError::NoModifier(s) => {
                let mut m = String::from_str("Hotkey '");
                m.append(s.as_str());
                m.append("' must have at least one modifier");
                m
            },
            HotkeyError::UnknownKey(s) => {
                let mut m = String::from_str("Unknown key: '");
                m.append(s.as_str());
                m.append("'");
                m
            },
        }
    }
}

/// Modifiers collected so far: ctrl, alt, shift, win.
pub type Mods = (bool, bool, bool, bool);

/// The normalised text of one part of a hotkey string: trimmed, then
/// lower-cased.
pub open spec fn norm_part(p: Seq<char>) -> Seq<char> {
    lowercase(trim(p))
}

/// Adds one normalised modifier name to `m`, or `None` if it is not one.
pub open spec fn add_modifier(m: Mods, name: Seq<char>) -> Option<Mods> {
    if name == "ctrl"@ || name == "control"@ {
        Some((true, m.1, m.2, m.3))
    } else if name == "alt"@ {
        Some((m.0, true, m.2, m.3))
    } else if name == "shift"@ {
        Some((m.0, m.1, true, m.3))
    } else if name == "win"@ || name == "super"@ || name == "meta"@ {
        Some((m.0, m.1, m.2, true))
    } else {
        None
    }
}

/// The modifiers named by `parts`, read left to right; the first part that
/// is not a modifier is the error, given normalised.
pub open spec fn parse_mods(parts: Seq<Seq<char>>) -> Result<Mods, Seq<char>>
    decreases parts.len(),
{
    if parts.len() == 0 {
        Ok((false, false, false, false))
    } else {
        match parse_mods(parts.drop_last()) {
            Ok(m) => match add_modifier(m, norm_part(parts.last())) {
                Some(m2) => Ok(m2),
                None => Err(norm_part(parts.last())),
            },
            Err(e) => Err(e),
        }
    }
}

/// What a hotkey string denotes. It splits at `+`; there must be at least
/// two parts; every part but the last must name a modifier; the last part,
/// trimmed and lower-cased, must name a key.
pub open spec fn parse_hotkey_spec(s: Seq<char>) -> Result<Hotkey, HotkeyErrorView> {
    let parts = split_on(s, '+');
    if parts.len() < 2 {
        Err(HotkeyErrorView::TooFewParts(s))
    } else {
        let key_part = norm_part(parts.last());
        match parse_mods(parts.drop_last()) {
            Err(m) => Err(HotkeyErrorView::UnknownModifier(m)),
            Ok(m) => if !(m.0 || m.1 || m.2 || m.3) {
                Err(HotkeyErrorView::NoModifier(s))
            } else {
                match parse_key_code_spec(key_part) {
                    Some(k) => Ok(Hotkey { ctrl: m.0, alt: m.1, shift: m.2, win: m.3, key: k }),
                    None => Err(HotkeyErrorView::UnknownKey(key_part)),
                }
            },
        }
    }
}

/// Normalises one part of a hotkey string: trimmed, then lower-cased.
fn normalise_part(p: &Vec<char>) -> (r: Vec<char>)
    ensures
        r@ == norm_part(p@),
{
    let t = trim_chars(p);
    let lowered = to_lowercase(string_from_chars(t.as_slice()).as_str());
    chars_of(lowered.as_str())
}

/// Adds a normalised modifier name, if it is one.
pub fn add_modifier_name(m: Mods, name: &Vec<char>) -> (r: Option<Mods>)
    ensures
        r == add_modifier(m, name@),
{
    if chars_eq_str(name, "ctrl") || chars_eq_str(name, "control") {
        Some((true, m.1, m.2, m.3))
    } else if chars_eq_str(name, "alt") {
        Some((m.0, true, m.2, m.3))
    } else if chars_eq_str(name, "shift") {
        Some((m.0, m.1, true, m.3))
    } else if chars_eq_str(name, "win") || chars_eq_str(name, "super") || chars_eq_str(
        name,
        "meta",
    ) {
        Some((m.0, m.1, m.2, true))
    } else {
        None
    }
}

/// Parses a hotkey string like `"ctrl+alt+h"`.
pub fn parse_hotkey(s: &str) -> (r: Result<Hotkey, HotkeyError>)
    ensures
        match r {
            Ok(h) => parse_hotkey_spec(s@) == Ok::<Hotkey, HotkeyErrorView>(h),
            Err(e) => parse_hotkey_spec(s@) == Err::<Hotkey, HotkeyErrorView>(e@),
        },
        r matches Ok(h) ==> h.key.wf(),
{
    let chars = chars_of(s);
    let parts = split_chars(&chars, '+');
    let ghost sp = split_on(s@, '+');
    if parts.len() < 2 {
        return Err(HotkeyError::TooFewParts(String::from_str(s)));
    }
    let n = parts.len() - 1;
    let key_part = normalise_part(&parts[n]);
    assert(parts@[n as int]@ == sp.last());
    let mut m: Mods = (false, false, false, false);
    let mut i: usize = 0;
    while i < n
        invariant
            n + 1 == parts@.len(),
            sp == split_on(s@, '+'),
            parts@.len() == sp.len(),
            forall|j: int| 0 <= j < parts@.len() ==> #[trigger] parts@[j]@ == sp[j],
            i <= n,
            parse_mods(sp.drop_last().take(i as int)) == Ok::<Mods, Seq<char>>(m),
        decreases n - i,
    {
        let name = normalise_part(&parts[i]);
        assert(sp.drop_last().take(i + 1).drop_last() =~= sp.drop_last().take(i as int));
        assert(sp.drop_last().take(i + 1).last() == sp[i as int]);
        match add_modifier_name(m, &name) {
            Some(m2) => {
                m = m2;
            },
            None => {
                proof {
                    assert(parse_mods(sp.drop_last().take(i + 1)) == Err::<Mods, Seq<char>>(
                        name@,
                    ));
                    lemma_parse_mods_error_persists(sp.drop_last(), (i + 1) as int);
                    assert(parse_mods(sp.drop_last()) == Err::<Mods, Seq<char>>(name@));
                }
                return Err(HotkeyError::UnknownModifier(string_from_chars(name.as_slice())));
            },
        }
        i = i + 1;
    }
    assert(sp.drop_last().take(n as int) =~= sp.drop_last());
    if !(m.0 || m.1 || m.2 || m.3) {
        return Err(HotkeyError::NoModifier(String::from_str(s)));
    }
    match parse_key_code(&key_part) {
        Some(k) => Ok(Hotkey { ctrl: m.0, alt: m.1, shift: m.2, win: m.3, key: k }),
        None => Err(HotkeyError::UnknownKey(string_from_chars(key_part.as_slice()))),
    }
}

proof fn lemma_parse_mods_error_persists(parts: Seq<Seq<char>>, i: int)
    requires
        0 <= i <= parts.len(),
        parse_mods(parts.take(i)) is Err,
    ensures
        parse_mods(parts) == parse_mods(parts.take(i)),
    decreases parts.len() - i,
{
    if i == parts.len() {
        assert(parts.take(i) =~= parts);
    } else {
        assert(parts.take(i + 1).drop_last() =~= parts.take(i));
        lemma_parse_mods_error_persists(parts, i + 1);
    }
}

/// Parses `s`, falling back to `fallback` when it is refused; the flag says
/// whether the fallback was used.
pub fn parse_or_default(s: &str, fallback: Hotkey) -> (r: (Hotkey, bool))
    ensures
        match parse_hotkey_spec(s@) {
            Ok(h) => r == (h, false),
            Err(_) => r == (fallback, true),
        },
{
    match parse_hotkey(s) {
        Ok(h) => (h, false),
        Err(_) => (fallback, true),
    }
}

/// The built-in hotkey for the icons toggle, Ctrl+Alt+H.
pub open spec fn default_icons_hotkey() -> Hotkey {
    Hotkey { ctrl: true, alt: true, shift: false, win: false, key: KeyCode::Letter(7) }
}

/// The built-in hotkey for the taskbar toggle, Ctrl+Alt+T.
pub open spec fn default_taskbar_hotkey() -> Hotkey {
    Hotkey { ctrl: true, alt: true, shift: false, win: false, key: KeyCode::Letter(19) }
}

/// The built-in hotkey for the windows toggle, Ctrl+Alt+W.
pub open spec fn default_windows_hotkey() -> Hotkey {
    Hotkey { ctrl: true, alt: true, shift: false, win: false, key: KeyCode::Letter(22) }
}

/// The built-in hotkeys for icons, taskbar and windows: Ctrl+Alt+H,
/// Ctrl+Alt+T, Ctrl+Alt+W.
pub fn default_hotkeys() -> (r: (Hotkey, Hotkey, Hotkey))
    ensures
        r == (default_icons_hotkey(), default_taskbar_hotkey(), default_windows_hotkey()),
{
    (
        Hotkey { ctrl: true, alt: true, shift: false, win: false, key: KeyCode::Letter(7) },
        Hotkey { ctrl: true, alt: true, shift: false, win: false, key: KeyCode::Letter(19) },
        Hotkey { ctrl: true, alt: true, shift: false, win: false, key: KeyCode::Letter(22) },
    )
}

// ---------------------------------------------------------------- hotkey ids

/// The modifier bits of global hotkeys for this hotkey: ALT 0x1, CONTROL
/// 0x8, SHIFT 0x200, SUPER 0x2000.
pub open spec fn modifier_bits(h: Hotkey) -> u32 {
    ((if h.alt { 0x1u32 } else { 0 }) + (if h.ctrl { 0x8u32 } else { 0 }) + (if h.shift {
        0x200u32
    } else {
        0
    }) + (if h.win { 0x2000u32 } else { 0 })) as u32
}

/// The id that global hotkeys gives the hotkey with these modifier bits and
/// this key name (`None` if it has no key of that name).
pub uninterp spec fn global_hotkey_id(mods: u32, code: Seq<char>) -> Option<u32>;

/// `global_hotkey::hotkey::HotKey::new(Some(mods), code).id()`, with the key
/// looked up by name through `Code::from_str` and the modifiers through
/// `Modifiers::from_bits_truncate`; `None` when the key name is unknown. How
/// the id is formed from the two is left to the name `global_hotkey_id`.
#[verifier::external_body]
fn global_id(mods: u32, code: &str) -> (r: Option<u32>)
    ensures
        r == global_hotkey_id(mods, code@),
{
    match <global_hotkey::hotkey::Code as std::str::FromStr>::from_str(code) {
        Ok(c) => Some(
            global_hotkey::hotkey::HotKey::new(
                Some(global_hotkey::hotkey::Modifiers::from_bits_truncate(mods)),
                c,
            ).id(),
        ),
        Err(_) => None,
    }
}

/// The id under which global hotkeys reports presses of `h`.
pub fn hotkey_id(h: Hotkey) -> (r: Option<u32>)
    requires
        h.key.wf(),
    ensures
        r == global_hotkey_id(modifier_bits(h), code_name(h.key)),
{
    let bits: u32 = (if h.alt { 0x1u32 } else { 0 }) + (if h.ctrl { 0x8u32 } else { 0 }) + (
    if h.shift {
        0x200u32
    } else {
        0
    }) + (if h.win { 0x2000u32 } else { 0 });
    let name = code_name_string(h.key);
    global_id(bits, name.as_str())
}

/// The id of a profile's hotkey: `None` when it has none, when it does not
/// parse, or when global hotkeys has no id for it.
pub open spec fn profile_hotkey_id(p: ProfileView) -> Option<u32> {
    if p.hotkey.len() == 0 {
        None
    } else {
        match parse_hotkey_spec(p.hotkey) {
            Ok(h) => global_hotkey_id(modifier_bits(h), code_name(h.key)),
            Err(_) => None,
        }
    }
}

/// The name of the first profile whose id is `id`.
pub open spec fn first_with_id(names: Seq<Seq<char>>, ids: Seq<Option<u32>>, id: u32) -> Option<
    Seq<char>,
>
    decreases names.len(),
{
    if names.len() == 0 || ids.len() == 0 {
        None
    } else if ids[0] == Some(id) {
        Some(names[0])
    } else {
        first_with_id(names.drop_first(), ids.drop_first(), id)
    }
}

/// Given each profile's hotkey id, the name of the first profile whose id
/// is `id`.
pub fn profile_with_id(profiles: &Vec<ProfileConfig>, ids: &Vec<Option<u32>>, id: u32) -> (r:
    Option<String>)
    requires
        ids.len() == profiles.len(),
    ensures
        crate::state::opt_string_view(r) == first_with_id(
            profiles_view(profiles@).map_values(|p: ProfileView| p.name),
            ids@,
            id,
        ),
{
    let ghost names = profiles_view(profiles@).map_values(|p: ProfileView| p.name);
    assert(names.skip(0) =~= names);
    assert(ids@.skip(0) =~= ids@);
    let mut i: usize = 0;
    while i < profiles.len()
        invariant
            ids.len() == profiles.len(),
            names.len() == profiles.len(),
            names == profiles_view(profiles@).map_values(|p: ProfileView| p.name),
            i <= profiles.len(),
            first_with_id(names, ids@, id) == first_with_id(
                names.skip(i as int),
                ids@.skip(i as int),
                id,
            ),
        decreases profiles.len() - i,
    {
        assert(names.skip(i as int).drop_first() =~= names.skip(i + 1));
        assert(ids@.skip(i as int).drop_first() =~= ids@.skip(i + 1));
        if ids[i] == Some(id) {
            assert(names.skip(i as int)[0] == profiles@[i as int].name@);
            return Some(profiles[i].name.clone());
        }
        i = i + 1;
    }
    None
}

/// The profile that a hotkey press with this id selects: the first profile
/// with a non-empty hotkey that parses and has this id.
pub fn profile_for_hotkey(profiles: &Vec<ProfileConfig>, id: u32) -> (r: Option<String>)
    ensures
        crate::state::opt_string_view(r) == first_with_id(
            profiles_view(profiles@).map_values(|p: ProfileView| p.name),
            profiles_view(profiles@).map_values(|p: ProfileView| profile_hotkey_id(p)),
            id,
        ),
{
    let mut ids: Vec<Option<u32>> = Vec::new();
    let mut i: usize = 0;
    while i < profiles.len()
        invariant
            i <= profiles.len(),
            ids@ =~= profiles_view(profiles@).map_values(|p: ProfileView| profile_hotkey_id(p)).take(
                i as int,
            ),
        decreases profiles.len() - i,
    {
        let p = &profiles[i];
        let pid = if p.hotkey.as_str().is_empty() {
            None
        } else {
            match parse_hotkey(p.hotkey.as_str()) {
                Ok(h) => hotkey_id(h),
                Err(_) => None,
            }
        };
        assert(pid == profile_hotkey_id(profiles@[i as int]@));
        ids.push(pid);
        i = i + 1;
    }
    assert(ids@ =~= profiles_view(profiles@).map_values(|p: ProfileView| profile_hotkey_id(p)));
    profile_with_id(profiles, &ids, id)
}

// ---------------------------------------------------------------- editing

/// The parts of a hotkey string as the editor shows them: whether each of
/// ctrl, alt, shift and win/super appears among the modifiers (ignoring
/// ASCII case and surrounding spaces), and the key part, trimmed and
/// upper-cased.
pub open spec fn parse_for_edit_spec(s: Seq<char>) -> (bool, bool, bool, bool, Seq<char>) {
    let parts = split_on(s, '+');
    let mods = parts.drop_last();
    (
        exists|i: int| 0 <= i < mods.len() && eq_ignore_ascii_case(trim(#[trigger] mods[i]), "ctrl"@),
        exists|i: int| 0 <= i < mods.len() && eq_ignore_ascii_case(trim(#[trigger] mods[i]), "alt"@),
        exists|i: int|
            0 <= i < mods.len() && eq_ignore_ascii_case(trim(#[trigger] mods[i]), "shift"@),
        exists|i: int|
            0 <= i < mods.len() && (eq_ignore_ascii_case(trim(#[trigger] mods[i]), "win"@)
                || eq_ignore_ascii_case(trim(mods[i]), "super"@)),
        uppercase(trim(parts.last())),
    )
}

/// Splits a hotkey string into the editor's checkboxes and key.
pub fn parse_for_edit(s: &str) -> (r: (bool, bool, bool, bool, String))
    ensures
        (r.0, r.1, r.2, r.3, r.4@) == parse_for_edit_spec(s@),
{
    let chars = chars_of(s);
    let parts = split_chars(&chars, '+');
    let ghost sp = split_on(s@, '+');
    proof {
        crate::text::lemma_split_on_nonempty(s@, '+');
    }
    let n = parts.len() - 1;
    let key_t = trim_chars(&parts[n]);
    let key = to_uppercase(string_from_chars(key_t.as_slice()).as_str());
    let ctrl_c = chars_of("ctrl");
    let alt_c = chars_of("alt");
    let shift_c = chars_of("shift");
    let win_c = chars_of("win");
    let super_c = chars_of("super");
    let mut ctrl = false;
    let mut alt = false;
    let mut shift = false;
    let mut win = false;
    let ghost mods = sp.drop_last();
    let mut i: usize = 0;
    while i < n
        invariant
            n + 1 == parts@.len(),
            parts@.len() == sp.len(),
            mods == sp.drop_last(),
            forall|j: int| 0 <= j < parts@.len() ==> #[trigger] parts@[j]@ == sp[j],
            i <= n,
            ctrl_c@ == "ctrl"@,
            alt_c@ == "alt"@,
            shift_c@ == "shift"@,
            win_c@ == "win"@,
            super_c@ == "super"@,
            ctrl == exists|k: int|
                0 <= k < i && eq_ignore_ascii_case(trim(#[trigger] mods[k]), "ctrl"@),
            alt == exists|k: int| 0 <= k < i && eq_ignore_ascii_case(trim(#[trigger] mods[k]), "alt"@),
            shift == exists|k: int|
                0 <= k < i && eq_ignore_ascii_case(trim(#[trigger] mods[k]), "shift"@),
            win == exists|k: int|
                0 <= k < i && (eq_ignore_ascii_case(trim(#[trigger] mods[k]), "win"@)
                    || eq_ignore_ascii_case(trim(mods[k]), "super"@)),
        decreases n - i,
    {
        let t = trim_chars(&parts[i]);
        assert(mods[i as int] == parts@[i as int]@);
        if eq_ignore_ascii_case_chars(&t, &ctrl_c) {
            ctrl = true;
        }
        if eq_ignore_ascii_case_chars(&t, &alt_c) {
            alt = true;
        }
        if eq_ignore_ascii_case_chars(&t, &shift_c) {
            shift = true;
        }
        if eq_ignore_ascii_case_chars(&t, &win_c) || eq_ignore_ascii_case_chars(&t, &super_c) {
            win = true;
        }
        i = i + 1;
    }
    assert(parts@[n as int]@ == sp.last());
    (ctrl, alt, shift, win, key)
}

/// Joins pieces with `+`.
pub open spec fn join_plus(parts: Seq<Seq<char>>) -> Seq<char>
    decreases parts.len(),
{
    if parts.len() == 0 {
        Seq::empty()
    } else if parts.len() == 1 {
        parts[0]
    } else {
        join_plus(parts.drop_last()) + seq!['+'] + parts.last()
    }
}

/// The modifier names that are set, in the order ctrl, alt, shift, win.
pub open spec fn mod_names(ctrl: bool, alt: bool, shift: bool, win: bool) -> Seq<Seq<char>> {
    let a = if ctrl { seq!["ctrl"@] } else { Seq::empty() };
    let b = if alt { a.push("alt"@) } else { a };
    let c = if shift { b.push("shift"@) } else { b };
    if win { c.push("win"@) } else { c }
}

/// The hotkey string the editor writes back: the set modifiers and the key,
/// joined with `+`.
pub open spec fn build_hotkey_spec(ctrl: bool, alt: bool, shift: bool, win: bool, key: Seq<char>) -> Seq<char> {
    join_plus(mod_names(ctrl, alt, shift, win).push(key))
}

fn join_plus_vec(parts: &Vec<String>) -> (r: String)
    ensures
        r@ == join_plus(crate::config::strings_view(parts@)),
{
    let ghost v = crate::config::strings_view(parts@);
    let mut s = String::new();
    let mut i: usize = 0;
    while i < parts.len()
        invariant
            i <= parts.len(),
            v == crate::config::strings_view(parts@),
            s@ == join_plus(v.take(i as int)),
        decreases parts.len() - i,
    {
        assert(v.take(i + 1).drop_last() =~= v.take(i as int));
        if i > 0 {
            s.append("+");
            assert(seq!['+'] =~= "+"@) by {
                reveal_strlit("+");
            }
        } else {
            assert(s@ =~= Seq::<char>::empty());
        }
        s.append(parts[i].as_str());
        i = i + 1;
    }
    assert(v.take(parts.len() as int) =~= v);
    s
}

/// Puts a hotkey string back together from the editor's checkboxes and key.
pub fn build_hotkey(ctrl: bool, alt: bool, shift: bool, win: bool, key: &str) -> (r: String)
    ensures
        r@ == build_hotkey_spec(ctrl, alt, shift, win, key@),
{
    let mut parts: Vec<String> = Vec::new();
    if ctrl {
        parts.push(String::from_str("ctrl"));
    }
    if alt {
        parts.push(String::from_str("alt"));
    }
    if shift {
        parts.push(String::from_str("shift"));
    }
    if win {
        parts.push(String::from_str("win"));
    }
    parts.push(String::from_str(key));
    assert(crate::config::strings_view(parts@) =~= mod_names(ctrl, alt, shift, win).push(key@));
    join_plus_vec(&parts)
}

/// Whether `c` occurs in `s`.
pub open spec fn has_char(s: Seq<char>, c: char) -> bool {
    exists|i: int| 0 <= i < s.len() && s[i] == c
}

proof fn lemma_split_on_append(x: Seq<char>, y: Seq<char>, sep: char)
    ensures
        split_on(x + seq![sep] + y, sep) == split_on(x, sep) + split_on(y, sep),
    decreases y.len(),
{
    if y.len() == 0 {
        assert(x + seq![sep] + y =~= x.push(sep));
        assert((x.push(sep)).drop_last() =~= x);
        assert(split_on(y, sep) =~= seq![Seq::<char>::empty()]);
        assert(split_on(x, sep).push(Seq::<char>::empty()) =~= split_on(x, sep) + seq![
            Seq::<char>::empty(),
        ]);
    } else {
        let y2 = y.drop_last();
        let c = y.last();
        lemma_split_on_append(x, y2, sep);
        assert(x + seq![sep] + y =~= (x + seq![sep] + y2).push(c));
        assert((x + seq![sep] + y).drop_last() =~= x + seq![sep] + y2);
        crate::text::lemma_split_on_nonempty(y2, sep);
        let a = split_on(x, sep);
        let b = split_on(y2, sep);
        if c == sep {
            assert((a + b).push(Seq::<char>::empty()) =~= a + b.push(Seq::<char>::empty()));
        } else {
            assert((a + b).update((a + b).len() - 1, (a + b).last().push(c)) =~= a + b.update(
                b.len() - 1,
                b.last().push(c),
            ));
        }
    }
}

proof fn lemma_split_on_no_sep(y: Seq<char>, sep: char)
    requires
        !has_char(y, sep),
    ensures
        split_on(y, sep) == seq![y],
    decreases y.len(),
{
    if y.len() == 0 {
        assert(y =~= Seq::<char>::empty());
    } else {
        let y2 = y.drop_last();
        assert(!has_char(y2, sep)) by {
            if has_char(y2, sep) {
                let i = choose|i: int| 0 <= i < y2.len() && y2[i] == sep;
                assert(y[i] == sep);
            }
        }
        lemma_split_on_no_sep(y2, sep);
        assert(y.last() != sep) by {
            assert(y[y.len() - 1] == y.last());
        }
        assert(y.drop_last() =~= y2);
        assert(y2.push(y.last()) =~= y);
        let p = split_on(y2, sep);
        assert(p == seq![y2]);
        assert(split_on(y, sep) == p.update(p.len() - 1, p.last().push(y.last())));
        assert(p.update(0, y2.push(y.last())) =~= seq![y]);
    }
}

/// Splitting a `+`-joined list at `+` gives the list back, when no piece
/// holds a `+`.
pub proof fn lemma_split_join(parts: Seq<Seq<char>>)
    requires
        parts.len() >= 1,
        forall|i: int| 0 <= i < parts.len() ==> !has_char(#[trigger] parts[i], '+'),
    ensures
        split_on(join_plus(parts), '+') == parts,
    decreases parts.len(),
{
    if parts.len() == 1 {
        lemma_split_on_no_sep(parts[0], '+');
        assert(seq![parts[0]] =~= parts);
    } else {
        let init = parts.drop_last();
        assert forall|i: int| 0 <= i < init.len() implies !has_char(#[trigger] init[i], '+') by {
            assert(init[i] == parts[i]);
        }
        lemma_split_join(init);
        lemma_split_on_append(join_plus(init), parts.last(), '+');
        lemma_split_on_no_sep(parts.last(), '+');
        assert(init + seq![parts.last()] =~= parts);
    }
}

proof fn lemma_mod_names_plain(ctrl: bool, alt: bool, shift: bool, win: bool)
    ensures
        forall|i: int|
            0 <= i < mod_names(ctrl, alt, shift, win).len() ==> !has_char(
                #[trigger] mod_names(ctrl, alt, shift, win)[i],
                '+',
            ),
{
    reveal_strlit("ctrl");
    reveal_strlit("alt");
    reveal_strlit("shift");
    reveal_strlit("win");
    let m = mod_names(ctrl, alt, shift, win);
    assert forall|i: int| 0 <= i < m.len() implies !has_char(#[trigger] m[i], '+') by {
        assert(m[i] == "ctrl"@ || m[i] == "alt"@ || m[i] == "shift"@ || m[i] == "win"@);
    }
}

/// The editor's round trip: splitting what `build_hotkey` writes gives back
/// its checkboxes, and the key trimmed and upper-cased, for a key without
/// `+`.
pub proof fn lemma_parse_for_edit_build(ctrl: bool, alt: bool, shift: bool, win: bool, key: Seq<char>)
    requires
        !has_char(key, '+'),
    ensures
        parse_for_edit_spec(build_hotkey_spec(ctrl, alt, shift, win, key)) == (
            ctrl,
            alt,
            shift,
            win,
            uppercase(trim(key)),
        ),
{
    reveal_strlit("ctrl");
    reveal_strlit("alt");
    reveal_strlit("shift");
    reveal_strlit("win");
    reveal_strlit("super");
    let mods = mod_names(ctrl, alt, shift, win);
    let parts = mods.push(key);
    lemma_mod_names_plain(ctrl, alt, shift, win);
    assert forall|i: int| 0 <= i < parts.len() implies !has_char(#[trigger] parts[i], '+') by {
        if i < mods.len() {
            assert(parts[i] == mods[i]);
        }
    }
    lemma_split_join(parts);
    assert(parts.drop_last() =~= mods);
    assert forall|i: int| 0 <= i < mods.len() implies trim(#[trigger] mods[i]) == mods[i] by {
        lemma_trim_plain(mods[i]);
    }
    let r = parse_for_edit_spec(build_hotkey_spec(ctrl, alt, shift, win, key));
    assert(r.0 == ctrl) by {
        if ctrl {
            assert(mods[0] == "ctrl"@);
            assert(eq_ignore_ascii_case(trim(mods[0]), "ctrl"@));
        } else {
            assert forall|i: int| 0 <= i < mods.len() implies !eq_ignore_ascii_case(
                trim(#[trigger] mods[i]),
                "ctrl"@,
            ) by {
                lemma_not_ctrl(mods[i]);
            }
        }
    }
    assert(r.1 == alt) by {
        if alt {
            let k = if ctrl { 1int } else { 0int };
            assert(mods[k] == "alt"@);
            assert(eq_ignore_ascii_case(trim(mods[k]), "alt"@));
        } else {
            assert forall|i: int| 0 <= i < mods.len() implies !eq_ignore_ascii_case(
                trim(#[trigger] mods[i]),
                "alt"@,
            ) by {
                lemma_not_alt(mods[i]);
            }
        }
    }
    assert(r.2 == shift) by {
        if shift {
            let k = (if ctrl { 1int } else { 0int }) + (if alt { 1int } else { 0int });
            assert(mods[k] == "shift"@);
            assert(eq_ignore_ascii_case(trim(mods[k]), "shift"@));
        } else {
            assert forall|i: int| 0 <= i < mods.len() implies !eq_ignore_ascii_case(
                trim(#[trigger] mods[i]),
                "shift"@,
            ) by {
                lemma_not_shift(mods[i]);
            }
        }
    }
    assert(r.3 == win) by {
        if win {
            let k = mods.len() - 1;
            assert(mods[k] == "win"@);
            assert(eq_ignore_ascii_case(trim(mods[k]), "win"@));
        } else {
            assert forall|i: int| 0 <= i < mods.len() implies !(eq_ignore_ascii_case(
                trim(#[trigger] mods[i]),
                "win"@,
            ) || eq_ignore_ascii_case(trim(mods[i]), "super"@)) by {
                lemma_not_win(mods[i]);
            }
        }
    }
}

proof fn lemma_parse_mods_push(a: Seq<Seq<char>>, x: Seq<char>)
    ensures
        parse_mods(a.push(x)) == (match parse_mods(a) {
            Ok(m) => match add_modifier(m, norm_part(x)) {
                Some(m2) => Ok(m2),
                None => Err(norm_part(x)),
            },
            Err(e) => Err(e),
        }),
{
    assert(a.push(x).drop_last() =~= a);
}

proof fn lemma_norm_plain(s: Seq<char>)
    requires
        s == "ctrl"@ || s == "alt"@ || s == "shift"@ || s == "win"@,
    ensures
        norm_part(s) == s,
{
    reveal_strlit("ctrl");
    reveal_strlit("alt");
    reveal_strlit("shift");
    reveal_strlit("win");
    lemma_trim_plain(s);
    assert(crate::text::is_ascii_seq(s));
    assert(crate::text::ascii_lowercase(s) =~= s);
}

proof fn lemma_norm_token(k: KeyCode)
    requires
        k.wf(),
    ensures
        norm_part(key_token(k)) == key_token(k),
        !has_char(key_token(k), '+'),
{
    let t = key_token(k);
    assert(forall|i: int| 0 <= i < t.len() ==> ('0' <= #[trigger] t[i] <= '9' || 'a' <= t[i] <= 'z'));
    assert(!crate::text::is_ws(t[0]));
    assert(!crate::text::is_ws(t.last()));
    assert(crate::text::trim_start(t) == t);
    assert(crate::text::trim_end(t) == t);
    assert(crate::text::is_ascii_seq(t));
    assert(crate::text::ascii_lowercase(t) =~= t);
}

/// A hotkey written by the editor or the recorder, with at least one
/// modifier and a key's token, parses back to those modifiers and that key.
pub proof fn lemma_built_hotkey_parses(ctrl: bool, alt: bool, shift: bool, win: bool, k: KeyCode)
    requires
        k.wf(),
        ctrl || alt || shift || win,
    ensures
        parse_hotkey_spec(build_hotkey_spec(ctrl, alt, shift, win, key_token(k))) == Ok::<
            Hotkey,
            HotkeyErrorView,
        >(Hotkey { ctrl, alt, shift, win, key: k }),
{
    reveal_strlit("ctrl");
    reveal_strlit("alt");
    reveal_strlit("shift");
    reveal_strlit("win");
    reveal_strlit("control");
    reveal_strlit("super");
    reveal_strlit("meta");
    let tok = key_token(k);
    let mods = mod_names(ctrl, alt, shift, win);
    let parts = mods.push(tok);
    lemma_mod_names_plain(ctrl, alt, shift, win);
    lemma_norm_token(k);
    assert forall|i: int| 0 <= i < parts.len() implies !has_char(#[trigger] parts[i], '+') by {
        if i < mods.len() {
            assert(parts[i] == mods[i]);
        }
    }
    lemma_split_join(parts);
    assert(parts.drop_last() =~= mods);
    lemma_key_token_roundtrip(k);

    let a0 = Seq::<Seq<char>>::empty();
    let a = if ctrl { a0.push("ctrl"@) } else { a0 };
    let b = if alt { a.push("alt"@) } else { a };
    let c = if shift { b.push("shift"@) } else { b };
    let d = if win { c.push("win"@) } else { c };
    assert(a0.push("ctrl"@) =~= seq!["ctrl"@]);
    assert(d =~= mods);
    lemma_norm_plain("ctrl"@);
    lemma_norm_plain("alt"@);
    lemma_norm_plain("shift"@);
    lemma_norm_plain("win"@);
    lemma_parse_mods_push(a0, "ctrl"@);
    lemma_parse_mods_push(a, "alt"@);
    lemma_parse_mods_push(b, "shift"@);
    lemma_parse_mods_push(c, "win"@);
    assert(parse_mods(a) == Ok::<Mods, Seq<char>>((ctrl, false, false, false)));
    assert(parse_mods(b) == Ok::<Mods, Seq<char>>((ctrl, alt, false, false)));
    assert(parse_mods(c) == Ok::<Mods, Seq<char>>((ctrl, alt, shift, false)));
    assert(parse_mods(d) == Ok::<Mods, Seq<char>>((ctrl, alt, shift, win)));
}

proof fn lemma_trim_plain(s: Seq<char>)
    requires
        s == "ctrl"@ || s == "alt"@ || s == "shift"@ || s == "win"@,
    ensures
        trim(s) == s,
{
    reveal_strlit("ctrl");
    reveal_strlit("alt");
    reveal_strlit("shift");
    reveal_strlit("win");
    assert(!crate::text::is_ws(s[0]));
    assert(!crate::text::is_ws(s.last()));
    assert(crate::text::trim_start(s) == s);
}

proof fn lemma_not_ctrl(s: Seq<char>)
    requires
        s == "alt"@ || s == "shift"@ || s == "win"@,
    ensures
        !eq_ignore_ascii_case(trim(s), "ctrl"@),
{
    lemma_trim_plain(s);
    reveal_strlit("ctrl");
    reveal_strlit("alt");
    reveal_strlit("shift");
    reveal_strlit("win");
    if s.len() == 4 {
        assert(crate::text::ascii_lower(s[0]) != crate::text::ascii_lower("ctrl"@[0]));
    }
}

proof fn lemma_not_alt(s: Seq<char>)
    requires
        s == "ctrl"@ || s == "shift"@ || s == "win"@,
    ensures
        !eq_ignore_ascii_case(trim(s), "alt"@),
{
    lemma_trim_plain(s);
    reveal_strlit("ctrl");
    reveal_strlit("alt");
    reveal_strlit("shift");
    reveal_strlit("win");
    if s.len() == 3 {
        assert(crate::text::ascii_lower(s[0]) != crate::text::ascii_lower("alt"@[0]));
    }
}

proof fn lemma_not_shift(s: Seq<char>)
    requires
        s == "ctrl"@ || s == "alt"@ || s == "win"@,
    ensures
        !eq_ignore_ascii_case(trim(s), "shift"@),
{
    lemma_trim_plain(s);
    reveal_strlit("ctrl");
    reveal_strlit("alt");
    reveal_strlit("shift");
    reveal_strlit("win");
}

proof fn lemma_not_win(s: Seq<char>)
    requires
        s == "ctrl"@ || s == "alt"@ || s == "shift"@,
    ensures
        !eq_ignore_ascii_case(trim(s), "win"@),
        !eq_ignore_ascii_case(trim(s), "super"@),
{
    lemma_trim_plain(s);
    reveal_strlit("ctrl");
    reveal_strlit("alt");
    reveal_strlit("shift");
    reveal_strlit("win");
    reveal_strlit("super");
    if s.len() == 3 {
        assert(crate::text::ascii_lower(s[0]) != crate::text::ascii_lower("win"@[0]));
    }
    if s.len() == 5 {
        assert(crate::text::ascii_lower(s[1]) != crate::text::ascii_lower("super"@[1]));
    }
}

// ---------------------------------------------------------------- recording

/// One keyboard event seen by the hotkey recorder: the key, if it is one a
/// hotkey can use, whether it was a press, and the held modifiers.
#[derive(Debug, Clone, Copy)]
pub struct KeyPress {
    pub key: Option<KeyCode>,
    pub pressed: bool,
    pub ctrl: bool,
    pub alt: bool,
    pub shift: bool,
}

/// Whether the event's key, if any, is in range.
pub open spec fn press_wf(e: KeyPress) -> bool {
    match e.key {
        Some(k) => k.wf(),
        None => true,
    }
}

/// The combination recorded from one event, if it makes a hotkey: a press
/// of a usable key with at least one of ctrl, alt and shift held.
pub open spec fn combo_of(e: KeyPress) -> Option<Seq<char>> {
    match e.key {
        Some(k) => if e.pressed && (e.ctrl || e.alt || e.shift) {
            Some(join_plus(mod_names(e.ctrl, e.alt, e.shift, false).push(key_token(k))))
        } else {
            None
        },
        None => None,
    }
}

/// The combination recorded from the first event that makes one.
pub open spec fn capture_combo_spec(events: Seq<KeyPress>) -> Option<Seq<char>>
    decreases events.len(),
{
    if events.len() == 0 {
        None
    } else if combo_of(events[0]) is Some {
        combo_of(events[0])
    } else {
        capture_combo_spec(events.drop_first())
    }
}

/// A combination the recorder takes from an event parses back to that
/// event's modifiers and key.
pub proof fn lemma_recorded_combo_parses(e: KeyPress)
    requires
        press_wf(e),
        combo_of(e) is Some,
    ensures
        parse_hotkey_spec(combo_of(e)->0) == Ok::<Hotkey, HotkeyErrorView>(
            Hotkey { ctrl: e.ctrl, alt: e.alt, shift: e.shift, win: false, key: e.key->0 },
        ),
{
    lemma_built_hotkey_parses(e.ctrl, e.alt, e.shift, false, e.key->0);
}

/// Looks through a frame's keyboard events for a modifier(s)+key press and
/// returns it as a hotkey string.
pub fn capture_combo(events: &Vec<KeyPress>) -> (r: Option<String>)
    requires
        forall|i: int| 0 <= i < events.len() ==> press_wf(#[trigger] events@[i]),
    ensures
        crate::state::opt_string_view(r) == capture_combo_spec(events@),
{
    assert(events@.skip(0) =~= events@);
    let mut i: usize = 0;
    while i < events.len()
        invariant
            i <= events.len(),
            forall|j: int| 0 <= j < events.len() ==> press_wf(#[trigger] events@[j]),
            capture_combo_spec(events@) == capture_combo_spec(events@.skip(i as int)),
        decreases events.len() - i,
    {
        let e = events[i];
        assert(events@.skip(i as int)[0] == e);
        assert(events@.skip(i as int).drop_first() =~= events@.skip(i + 1));
        if let Some(k) = e.key {
            if e.pressed && (e.ctrl || e.alt || e.shift) {
                let tok = key_token_string(k);
                let s = build_hotkey(e.ctrl, e.alt, e.shift, false, tok.as_str());
                return Some(s);
            }
        }
        i = i + 1;
    }
    None
}

} // verus!
