//! Decisions about top-level windows: which ones to hide, how to restore
//! them, and when the foreground window is fullscreen.

use vstd::prelude::*;

use crate::config::strings_view;
use crate::text::{chars_eq_str, chars_of, eq_ignore_ascii_case, eq_ignore_ascii_case_chars, sub_chars};

verus! {

/// The extended window style bit of tool windows (floating toolbars).
pub const WS_EX_TOOLWINDOW: u32 = 0x80;

/// Window classes of the shell, which are never hidden.
pub open spec fn shell_classes() -> Seq<Seq<char>> {
    seq![
        "Shell_TrayWnd"@,
        "Shell_SecondaryTrayWnd"@,
        "Progman"@,
        "WorkerW"@,
        "Button"@,
        "DV2ControlHost"@,
        "Windows.UI.Core.CoreWindow"@,
        "XamlExplorerHostIslandWindow"@,
    ]
}

/// Whether a window class belongs to the shell.
pub fn is_shell_class(class: &str) -> (r: bool)
    ensures
        r == shell_classes().contains(class@),
{
    let c = chars_of(class);
    let r = chars_eq_str(&c, "Shell_TrayWnd") || chars_eq_str(&c, "Shell_SecondaryTrayWnd")
        || chars_eq_str(&c, "Progman") || chars_eq_str(&c, "WorkerW") || chars_eq_str(&c, "Button")
        || chars_eq_str(&c, "DV2ControlHost") || chars_eq_str(&c, "Windows.UI.Core.CoreWindow")
        || chars_eq_str(&c, "XamlExplorerHostIslandWindow");
    proof {
        let s = shell_classes();
        if r {
            if c@ == "Shell_TrayWnd"@ {
                assert(s[0] == c@);
            } else if c@ == "Shell_SecondaryTrayWnd"@ {
                assert(s[1] == c@);
            } else if c@ == "Progman"@ {
                assert(s[2] == c@);
            } else if c@ == "WorkerW"@ {
                assert(s[3] == c@);
            } else if c@ == "Button"@ {
                assert(s[4] == c@);
            } else if c@ == "DV2ControlHost"@ {
                assert(s[5] == c@);
            } else if c@ == "Windows.UI.Core.CoreWindow"@ {
                assert(s[6] == c@);
            } else {
                assert(s[7] == c@);
            }
        } else {
            assert forall|i: int| 0 <= i < s.len() implies s[i] != c@ by {}
        }
    }
    r
}

/// What is known of a top-level window when deciding whether to hide it.
#[derive(Debug, Clone)]
pub struct WindowInfo {
    pub visible: bool,
    /// Length of the window's title.
    pub title_len: i32,
    pub class: String,
    /// The extended window style bits.
    pub ex_style: u32,
    /// The id of the process that owns the window.
    pub pid: u32,
    /// The file name of that process's executable.
    pub process_name: String,
    /// Whether the window has an owner window.
    pub has_owner: bool,
}

/// A process's executable name without a trailing `.exe` (in any ASCII
/// case), as the excluded names are written: `Taskmgr.exe` gives `Taskmgr`.
pub open spec fn process_stem(name: Seq<char>) -> Seq<char> {
    if name.len() >= 4 && eq_ignore_ascii_case(name.skip(name.len() - 4), ".exe"@) {
        name.take(name.len() - 4)
    } else {
        name
    }
}

/// The name of a process without a trailing `.exe`.
pub fn process_stem_of(name: &Vec<char>) -> (r: Vec<char>)
    ensures
        r@ == process_stem(name@),
{
    let n = name.len();
    if n >= 4 {
        let tail = sub_chars(name, n - 4, n);
        assert(tail@ == name@.skip(n - 4));
        if eq_ignore_ascii_case_chars(&tail, &chars_of(".exe")) {
            return sub_chars(name, 0, n - 4);
        }
    }
    sub_chars(name, 0, n)
}

/// Whether a window is an application window to hide: visible, titled, not
/// the shell's, not a tool window, not this app's own, not of an excluded
/// process (its name without `.exe` compared with the excluded names,
/// ignoring ASCII case), and top-level.
pub open spec fn should_hide_spec(
    visible: bool,
    title_len: i32,
    class: Seq<char>,
    ex_style: u32,
    pid: u32,
    process_name: Seq<char>,
    has_owner: bool,
    my_pid: u32,
    excluded: Seq<Seq<char>>,
) -> bool {
    &&& visible
    &&& title_len != 0
    &&& !shell_classes().contains(class)
    &&& ex_style & 0x80 == 0
    &&& pid != my_pid
    &&& forall|i: int| 0 <= i < excluded.len() ==> !eq_ignore_ascii_case(process_stem(process_name), #[trigger] excluded[i])
    &&& !has_owner
}

/// Only ordinary application windows are hidden: a window that is hidden
/// is visible, has a title, is not one of the shell's classes, is not a
/// tool window, belongs to another process, and has no owner.
pub proof fn lemma_only_app_windows_hidden(
    visible: bool,
    title_len: i32,
    class: Seq<char>,
    ex_style: u32,
    pid: u32,
    process_name: Seq<char>,
    has_owner: bool,
    my_pid: u32,
    excluded: Seq<Seq<char>>,
)
    requires
        should_hide_spec(visible, title_len, class, ex_style, pid, process_name, has_owner, my_pid, excluded),
    ensures
        visible,
        title_len != 0,
        class != "Shell_TrayWnd"@ && class != "Shell_SecondaryTrayWnd"@ && class != "Progman"@
            && class != "WorkerW"@ && class != "Button"@ && class != "DV2ControlHost"@ && class
            != "Windows.UI.Core.CoreWindow"@ && class != "XamlExplorerHostIslandWindow"@,
        ex_style & 0x80 == 0,
        pid != my_pid,
        !has_owner,
{
    let sc = shell_classes();
    assert(sc[0] == "Shell_TrayWnd"@);
    assert(sc[1] == "Shell_SecondaryTrayWnd"@);
    assert(sc[2] == "Progman"@);
    assert(sc[3] == "WorkerW"@);
    assert(sc[4] == "Button"@);
    assert(sc[5] == "DV2ControlHost"@);
    assert(sc[6] == "Windows.UI.Core.CoreWindow"@);
    assert(sc[7] == "XamlExplorerHostIslandWindow"@);
}

/// A window of an excluded process is never hidden, whether its
/// executable name is written with `.exe` or without.
pub proof fn lemma_excluded_never_hidden(
    visible: bool,
    title_len: i32,
    class: Seq<char>,
    ex_style: u32,
    pid: u32,
    stem: Seq<char>,
    with_exe: bool,
    has_owner: bool,
    my_pid: u32,
    excluded: Seq<Seq<char>>,
    i: int,
)
    requires
        0 <= i < excluded.len(),
        eq_ignore_ascii_case(stem, excluded[i]),
        !(stem.len() >= 4 && eq_ignore_ascii_case(stem.skip(stem.len() - 4), ".exe"@)),
    ensures
        !should_hide_spec(
            visible,
            title_len,
            class,
            ex_style,
            pid,
            if with_exe { stem + ".exe"@ } else { stem },
            has_owner,
            my_pid,
            excluded,
        ),
{
    reveal_strlit(".exe");
    if with_exe {
        let n = stem + ".exe"@;
        assert(n.skip(n.len() - 4) =~= ".exe"@);
        assert(n.take(n.len() - 4) =~= stem);
        assert(process_stem(n) == stem);
    }
}

/// Whether to hide this window.
pub fn should_hide_window(info: &WindowInfo, my_pid: u32, excluded: &Vec<String>) -> (r: bool)
    ensures
        r == should_hide_spec(
            info.visible,
            info.title_len,
            info.class@,
            info.ex_style,
            info.pid,
            info.process_name@,
            info.has_owner,
            my_pid,
            strings_view(excluded@),
        ),
{
    if !info.visible || info.title_len == 0 {
        return false;
    }
    if is_shell_class(info.class.as_str()) {
        return false;
    }
    if info.ex_style & WS_EX_TOOLWINDOW != 0 {
        return false;
    }
    if info.pid == my_pid {
        return false;
    }
    let ghost ex = strings_view(excluded@);
    let name = process_stem_of(&chars_of(info.process_name.as_str()));
    let mut i: usize = 0;
    while i < excluded.len()
        invariant
            i <= excluded.len(),
            ex == strings_view(excluded@),
            name@ == process_stem(info.process_name@),
            forall|j: int| 0 <= j < i ==> !eq_ignore_ascii_case(name@, #[trigger] ex[j]),
        decreases excluded.len() - i,
    {
        let e = chars_of(excluded[i].as_str());
        assert(ex[i as int] == e@);
        if eq_ignore_ascii_case_chars(&name, &e) {
            return false;
        }
        i = i + 1;
    }
    !info.has_owner
}

/// How a hidden window is shown again.
#[derive(Debug, Clone, Copy, PartialEq, Eq, Structural)]
pub enum ShowCommand {
    Normal,
    Minimized,
    Maximized,
}

/// The command that restores a window hidden in show state `show_cmd`:
/// maximised (3) and minimised (2) come back as they were, anything else
/// as a normal window.
pub fn restore_show_command(show_cmd: u32) -> (r: ShowCommand)
    ensures
        r == (if show_cmd == 3 {
            ShowCommand::Maximized
        } else if show_cmd == 2 {
            ShowCommand::Minimized
        } else {
            ShowCommand::Normal
        }),
{
    match show_cmd {
        3 => ShowCommand::Maximized,
        2 => ShowCommand::Minimized,
        _ => ShowCommand::Normal,
    }
}

/// A screen rectangle.
#[derive(Debug, Clone, Copy, PartialEq, Eq, Structural)]
pub struct Rect {
    pub left: i32,
    pub top: i32,
    pub right: i32,
    pub bottom: i32,
}

/// Whether the foreground window counts as fullscreen: it is not a shell
/// window and covers its whole monitor.
pub open spec fn fullscreen_spec(class: Seq<char>, window: Rect, monitor: Rect) -> bool {
    !shell_classes().contains(class) && window.left <= monitor.left && window.top <= monitor.top
        && window.right >= monitor.right && window.bottom >= monitor.bottom
}

/// Whether a foreground window of this class and rectangle fills the
/// monitor with this rectangle.
pub fn is_fullscreen(class: &str, window: Rect, monitor: Rect) -> (r: bool)
    ensures
        r == fullscreen_spec(class@, window, monitor),
{
    if is_shell_class(class) {
        return false;
    }
    window.left <= monitor.left && window.top <= monitor.top && window.right >= monitor.right
        && window.bottom >= monitor.bottom
}

} // verus!
