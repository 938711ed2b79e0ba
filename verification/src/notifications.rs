//! Toast notifications: when one is raised, what it says, and the XML that
//! describes it.

use vstd::prelude::*;
use vstd::string::*;

use crate::config::NotificationsConfig;
use crate::text::{chars_of, has_prefix, push_char};

verus! {

/// A notification's title and text.
#[derive(Debug, Clone)]
pub struct Toast {
    pub title: String,
    pub body: String,
}

/// How one character is written inside toast XML: the five XML special
/// characters as entities, everything else unchanged.
pub open spec fn xml_escape_char(c: char) -> Seq<char> {
    if c == '&' {
        "&amp;"@
    } else if c == '<' {
        "&lt;"@
    } else if c == '>' {
        "&gt;"@
    } else if c == '"' {
        "&quot;"@
    } else if c == '\'' {
        "&apos;"@
    } else {
        seq![c]
    }
}

/// `s` with the XML special characters written as entities.
pub open spec fn xml_escape(s: Seq<char>) -> Seq<char>
    decreases s.len(),
{
    if s.len() == 0 {
        Seq::empty()
    } else {
        xml_escape(s.drop_last()) + xml_escape_char(s.last())
    }
}

/// Escapes text for toast XML, so that it cannot break the document.
pub fn escape_xml(s: &str) -> (r: String)
    ensures
        r@ == xml_escape(s@),
{
    let cs = chars_of(s);
    let mut out = String::new();
    let mut i: usize = 0;
    while i < cs.len()
        invariant
            i <= cs.len(),
            cs@ == s@,
            out@ == xml_escape(cs@.take(i as int)),
        decreases cs.len() - i,
    {
        assert(cs@.take(i + 1).drop_last() =~= cs@.take(i as int));
        let c = cs[i];
        if c == '&' {
            out.append("&amp;");
        } else if c == '<' {
            out.append("&lt;");
        } else if c == '>' {
            out.append("&gt;");
        } else if c == '"' {
            out.append("&quot;");
        } else if c == '\'' {
            out.append("&apos;");
        } else {
            push_char(&mut out, c);
        }
        i = i + 1;
    }
    assert(cs@.take(cs.len() as int) =~= cs@);
    out
}

/// Escaped text holds no `<`, `>`, quote or apostrophe: markup cannot leak
/// out of it.
pub proof fn lemma_xml_escape_safe(s: Seq<char>)
    ensures
        forall|i: int|
            0 <= i < xml_escape(s).len() ==> #[trigger] xml_escape(s)[i] != '<' && xml_escape(
                s,
            )[i] != '>' && xml_escape(s)[i] != '"' && xml_escape(s)[i] != '\'',
    decreases s.len(),
{
    reveal_strlit("&amp;");
    reveal_strlit("&lt;");
    reveal_strlit("&gt;");
    reveal_strlit("&quot;");
    reveal_strlit("&apos;");
    if s.len() > 0 {
        lemma_xml_escape_safe(s.drop_last());
        let e = xml_escape(s);
        let p = xml_escape(s.drop_last());
        let t = xml_escape_char(s.last());
        assert(e == p + t);
        assert forall|i: int| 0 <= i < e.len() implies #[trigger] e[i] != '<' && e[i] != '>'
            && e[i] != '"' && e[i] != '\'' by {
            if i < p.len() {
                assert(e[i] == p[i]);
            } else {
                assert(e[i] == t[i - p.len()]);
            }
        }
    }
}

/// Whether `c` is one of the five characters that XML text escapes.
pub open spec fn is_xml_special(c: char) -> bool {
    c == '&' || c == '<' || c == '>' || c == '"' || c == '\''
}

/// The entities of the five special characters, as `xml_escape_char`
/// writes them.
pub open spec fn amp_entity() -> Seq<char> {
    seq!['&', 'a', 'm', 'p', ';']
}

pub open spec fn lt_entity() -> Seq<char> {
    seq!['&', 'l', 't', ';']
}

pub open spec fn gt_entity() -> Seq<char> {
    seq!['&', 'g', 't', ';']
}

pub open spec fn quot_entity() -> Seq<char> {
    seq!['&', 'q', 'u', 'o', 't', ';']
}

pub open spec fn apos_entity() -> Seq<char> {
    seq!['&', 'a', 'p', 'o', 's', ';']
}

/// Reads escaped XML text back in one left-to-right pass: each of the five
/// entities becomes its character, anything else stays.
pub open spec fn xml_unescape(e: Seq<char>) -> Seq<char>
    decreases e.len(),
{
    if e.len() == 0 {
        Seq::empty()
    } else if has_prefix(e, amp_entity()) {
        seq!['&'] + xml_unescape(e.skip(5))
    } else if has_prefix(e, lt_entity()) {
        seq!['<'] + xml_unescape(e.skip(4))
    } else if has_prefix(e, gt_entity()) {
        seq!['>'] + xml_unescape(e.skip(4))
    } else if has_prefix(e, quot_entity()) {
        seq!['"'] + xml_unescape(e.skip(6))
    } else if has_prefix(e, apos_entity()) {
        seq!['\''] + xml_unescape(e.skip(6))
    } else {
        seq![e[0]] + xml_unescape(e.drop_first())
    }
}

proof fn lemma_xml_escape_front(s: Seq<char>)
    requires
        s.len() > 0,
    ensures
        xml_escape(s) == xml_escape_char(s[0]) + xml_escape(s.drop_first()),
    decreases s.len(),
{
    if s.len() == 1 {
        assert(s.drop_last() =~= Seq::<char>::empty());
        assert(s.drop_first() =~= Seq::<char>::empty());
        assert(xml_escape_char(s[0]) + Seq::<char>::empty() =~= xml_escape_char(s[0]));
    } else {
        let d = s.drop_last();
        lemma_xml_escape_front(d);
        assert(d.drop_first() =~= s.drop_first().drop_last());
        assert(s.drop_first().last() == s.last());
        assert(xml_escape_char(s[0]) + xml_escape(d.drop_first()) + xml_escape_char(s.last())
            =~= xml_escape_char(s[0]) + (xml_escape(d.drop_first()) + xml_escape_char(s.last())));
    }
}

proof fn lemma_entities()
    ensures
        "&amp;"@ == amp_entity(),
        "&lt;"@ == lt_entity(),
        "&gt;"@ == gt_entity(),
        "&quot;"@ == quot_entity(),
        "&apos;"@ == apos_entity(),
{
    reveal_strlit("&amp;");
    reveal_strlit("&lt;");
    reveal_strlit("&gt;");
    reveal_strlit("&quot;");
    reveal_strlit("&apos;");
    assert("&amp;"@ =~= amp_entity());
    assert("&lt;"@ =~= lt_entity());
    assert("&gt;"@ =~= gt_entity());
    assert("&quot;"@ =~= quot_entity());
    assert("&apos;"@ =~= apos_entity());
}

proof fn lemma_not_prefix(e: Seq<char>, p: Seq<char>, i: int)
    requires
        0 <= i < p.len(),
        i < e.len(),
        e[i] != p[i],
    ensures
        !has_prefix(e, p),
{
    if has_prefix(e, p) {
        assert(e.take(p.len() as int)[i] == e[i]);
    }
}

proof fn lemma_unescape_char(c: char, rest: Seq<char>)
    ensures
        xml_unescape(xml_escape_char(c) + rest) == seq![c] + xml_unescape(rest),
{
    lemma_entities();
    let x = xml_escape_char(c);
    let e = x + rest;
    assert(forall|i: int| 0 <= i < x.len() ==> e[i] == x[i]);
    if c == '&' {
        assert(e.take(5) =~= amp_entity());
        assert(e.skip(5) =~= rest);
    } else if c == '<' {
        lemma_not_prefix(e, amp_entity(), 1);
        assert(e.take(4) =~= lt_entity());
        assert(e.skip(4) =~= rest);
    } else if c == '>' {
        lemma_not_prefix(e, amp_entity(), 1);
        lemma_not_prefix(e, lt_entity(), 1);
        assert(e.take(4) =~= gt_entity());
        assert(e.skip(4) =~= rest);
    } else if c == '"' {
        lemma_not_prefix(e, amp_entity(), 1);
        lemma_not_prefix(e, lt_entity(), 1);
        lemma_not_prefix(e, gt_entity(), 1);
        assert(e.take(6) =~= quot_entity());
        assert(e.skip(6) =~= rest);
    } else if c == '\'' {
        lemma_not_prefix(e, amp_entity(), 2);
        lemma_not_prefix(e, lt_entity(), 1);
        lemma_not_prefix(e, gt_entity(), 1);
        lemma_not_prefix(e, quot_entity(), 2);
        assert(e.take(6) =~= apos_entity());
        assert(e.skip(6) =~= rest);
    } else {
        assert(e[0] == c);
        lemma_not_prefix(e, amp_entity(), 0);
        lemma_not_prefix(e, lt_entity(), 0);
        lemma_not_prefix(e, gt_entity(), 0);
        lemma_not_prefix(e, quot_entity(), 0);
        lemma_not_prefix(e, apos_entity(), 0);
        assert(e.drop_first() =~= rest);
    }
}

/// Escaping can be undone: reading escaped text back in one left-to-right
/// pass gives the original text (so nothing is escaped twice: `&lt;` is
/// written `&amp;lt;` and reads back as `&lt;`).
pub proof fn lemma_xml_escape_roundtrip(s: Seq<char>)
    ensures
        xml_unescape(xml_escape(s)) == s,
    decreases s.len(),
{
    if s.len() == 0 {
        assert(xml_escape(s) =~= Seq::<char>::empty());
    } else {
        lemma_xml_escape_front(s);
        lemma_unescape_char(s[0], xml_escape(s.drop_first()));
        lemma_xml_escape_roundtrip(s.drop_first());
        assert(seq![s[0]] + s.drop_first() =~= s);
    }
}

/// Whether `e` begins with one of the five entities.
pub open spec fn starts_with_entity(e: Seq<char>) -> bool {
    has_prefix(e, amp_entity()) || has_prefix(e, lt_entity()) || has_prefix(e, gt_entity())
        || has_prefix(e, quot_entity()) || has_prefix(e, apos_entity())
}

proof fn lemma_prefix_extends(a: Seq<char>, b: Seq<char>, p: Seq<char>)
    requires
        has_prefix(a, p),
    ensures
        has_prefix(a + b, p),
{
    assert((a + b).take(p.len() as int) =~= a.take(p.len() as int));
}

/// In escaped text every `&` begins an entity.
pub proof fn lemma_xml_escape_ampersands(s: Seq<char>)
    ensures
        forall|i: int|
            0 <= i < xml_escape(s).len() && #[trigger] xml_escape(s)[i] == '&' ==> starts_with_entity(
                xml_escape(s).skip(i),
            ),
    decreases s.len(),
{
    lemma_entities();
    if s.len() > 0 {
        let d = s.drop_last();
        lemma_xml_escape_ampersands(d);
        let a = xml_escape(d);
        let x = xml_escape_char(s.last());
        let e = xml_escape(s);
        assert(e == a + x);
        assert forall|i: int| 0 <= i < e.len() && #[trigger] e[i] == '&' implies starts_with_entity(
            e.skip(i),
        ) by {
            if i < a.len() {
                assert(a[i] == e[i]);
                assert(e.skip(i) =~= a.skip(i) + x);
                let t = a.skip(i);
                if has_prefix(t, amp_entity()) {
                    lemma_prefix_extends(t, x, amp_entity());
                } else if has_prefix(t, lt_entity()) {
                    lemma_prefix_extends(t, x, lt_entity());
                } else if has_prefix(t, gt_entity()) {
                    lemma_prefix_extends(t, x, gt_entity());
                } else if has_prefix(t, quot_entity()) {
                    lemma_prefix_extends(t, x, quot_entity());
                } else {
                    lemma_prefix_extends(t, x, apos_entity());
                }
            } else {
                let j = i - a.len();
                assert(x[j] == e[i]);
                assert(e.skip(i) =~= x.skip(j));
                assert(j == 0);
                assert(x.skip(0) =~= x);
                let c = s.last();
                if c == '&' {
                    assert(x.take(5) =~= amp_entity());
                } else if c == '<' {
                    assert(x.take(4) =~= lt_entity());
                } else if c == '>' {
                    assert(x.take(4) =~= gt_entity());
                } else if c == '"' {
                    assert(x.take(6) =~= quot_entity());
                } else {
                    assert(x.take(6) =~= apos_entity());
                }
            }
        }
    }
}

/// Text without any of `& < > " '` is left unchanged.
pub proof fn lemma_xml_escape_plain(s: Seq<char>)
    requires
        forall|i: int| 0 <= i < s.len() ==> !is_xml_special(#[trigger] s[i]),
    ensures
        xml_escape(s) == s,
    decreases s.len(),
{
    if s.len() > 0 {
        let d = s.drop_last();
        assert forall|i: int| 0 <= i < d.len() implies !is_xml_special(#[trigger] d[i]) by {
            assert(d[i] == s[i]);
        }
        lemma_xml_escape_plain(d);
        assert(!is_xml_special(s[s.len() - 1]));
        assert(d + seq![s.last()] =~= s);
    }
}

/// The toast document for a title and text.
pub open spec fn toast_xml_spec(title: Seq<char>, body: Seq<char>) -> Seq<char> {
    "<toast><visual><binding template=\"ToastGeneric\"><text>"@ + xml_escape(title)
        + "</text><text>"@ + xml_escape(body) + "</text></binding></visual></toast>"@
}

/// The XML of a toast with this title and text.
pub fn toast_xml(title: &str, body: &str) -> (r: String)
    ensures
        r@ == toast_xml_spec(title@, body@),
{
    let mut out = String::from_str("<toast><visual><binding template=\"ToastGeneric\"><text>");
    let t = escape_xml(title);
    out.append(t.as_str());
    out.append("</text><text>");
    let b = escape_xml(body);
    out.append(b.as_str());
    out.append("</text></binding></visual></toast>");
    out
}

fn toast(title: &str, body: String) -> (r: Toast)
    ensures
        r.title@ == title@,
        r.body@ == body@,
{
    Toast { title: String::from_str(title), body }
}

/// The toast for a newly available version, if update notifications are on.
pub fn notify_update_available(version: &str, config: &NotificationsConfig) -> (r: Option<Toast>)
    ensures
        match r {
            Some(t) => config.enabled && config.on_update && t.title@ == "HideDesktopApps Update"@
                && t.body@ == "Version "@ + version@ + " is available. Open Settings to update."@,
            None => !config.enabled || !config.on_update,
        },
{
    if !config.enabled || !config.on_update {
        return None;
    }
    let mut body = String::from_str("Version ");
    body.append(version);
    body.append(" is available. Open Settings to update.");
    Some(toast("HideDesktopApps Update", body))
}

/// The toast saying the running version (`current`) is up to date, if
/// update notifications are on.
pub fn notify_up_to_date(config: &NotificationsConfig, current: &str) -> (r: Option<Toast>)
    ensures
        match r {
            Some(t) => config.enabled && config.on_update && t.title@ == "HideDesktopApps"@
                && t.body@ == "You are up to date. (v"@ + current@ + ")"@,
            None => !config.enabled || !config.on_update,
        },
{
    if !config.enabled || !config.on_update {
        return None;
    }
    let mut body = String::from_str("You are up to date. (v");
    body.append(current);
    body.append(")");
    Some(toast("HideDesktopApps", body))
}

/// The toast for a hotkey that could not be registered, if those
/// notifications are on.
pub fn notify_hotkey_failed(hotkey: &str, config: &NotificationsConfig) -> (r: Option<Toast>)
    ensures
        match r {
            Some(t) => config.enabled && config.on_hotkey_fail && t.title@ == "HideDesktopApps"@
                && t.body@ == "Failed to register hotkey: "@ + hotkey@,
            None => !config.enabled || !config.on_hotkey_fail,
        },
{
    if !config.enabled || !config.on_hotkey_fail {
        return None;
    }
    let mut body = String::from_str("Failed to register hotkey: ");
    body.append(hotkey);
    Some(toast("HideDesktopApps", body))
}

/// The toast for a profile switch, if those notifications are on.
pub fn notify_profile_switch(profile: &str, config: &NotificationsConfig) -> (r: Option<Toast>)
    ensures
        match r {
            Some(t) => config.enabled && config.on_profile_switch && t.title@ == "HideDesktopApps"@
                && t.body@ == "Profile '"@ + profile@ + "' activated."@,
            None => !config.enabled || !config.on_profile_switch,
        },
{
    if !config.enabled || !config.on_profile_switch {
        return None;
    }
    let mut body = String::from_str("Profile '");
    body.append(profile);
    body.append("' activated.");
    Some(toast("HideDesktopApps", body))
}

} // verus!
