//! The commands of the main loop and the decisions around them: which
//! command a hotkey or a menu click sends, the hotkey debounce, what a
//! toggle does, when the presence and the update check run.

use vstd::prelude::*;
use vstd::string::*;

use crate::config::AppConfig;
use crate::discord::{opt_presence_view, presence_for, set_rich_presence, Presence};
use crate::profiles::Effect;
use crate::state::{copy_opt_string, opt_string_view, AppState, StateView};

verus! {

/// What the main loop can be asked to do, by the tray, the hotkeys, the
/// settings window or the background update check.
#[derive(Debug, Clone)]
pub enum Cmd {
    ToggleIcons,
    ToggleTaskbar,
    ToggleWindows,
    ApplyProfile(String),
    ConfigUpdated(AppConfig),
    OpenSettings,
    Restart,
    Exit,
    UpdateAvailable(String),
    UpToDate,
    HotkeyFailed(String),
}

// ---------------------------------------------------------------- hotkeys

/// Presses of the same hotkey closer together than this many milliseconds
/// count once (Windows repeats the hotkey while the keys are held).
pub open spec fn debounce_ms() -> u64 {
    400
}

/// Which of the three toggles a hotkey press is for.
#[derive(Debug, Clone, Copy, PartialEq, Eq, Structural)]
pub enum HotkeyTarget {
    Icons,
    Taskbar,
    Windows,
    /// Not one of the three: possibly a profile's hotkey.
    Other,
}

/// The toggle that a hotkey id belongs to, checked in the order icons,
/// taskbar, windows.
pub fn classify_hotkey(id: u32, icons_id: u32, taskbar_id: u32, windows_id: u32) -> (r:
    HotkeyTarget)
    ensures
        r == (if id == icons_id {
            HotkeyTarget::Icons
        } else if id == taskbar_id {
            HotkeyTarget::Taskbar
        } else if id == windows_id {
            HotkeyTarget::Windows
        } else {
            HotkeyTarget::Other
        }),
{
    if id == icons_id {
        HotkeyTarget::Icons
    } else if id == taskbar_id {
        HotkeyTarget::Taskbar
    } else if id == windows_id {
        HotkeyTarget::Windows
    } else {
        HotkeyTarget::Other
    }
}

/// When each toggle hotkey last fired, in milliseconds.
#[derive(Debug, Clone, Copy)]
pub struct Debounce {
    pub last_icons_ms: u64,
    pub last_taskbar_ms: u64,
    pub last_windows_ms: u64,
}

/// Whether a press at `now` is far enough from the last one at `last`.
pub open spec fn debounce_allows(last: u64, now: u64) -> bool {
    now >= last && now - last >= debounce_ms()
}

impl Debounce {
    /// A debounce that lets the first press of each hotkey through: the
    /// last fire is set one debounce interval in the past (or at `now`
    /// when there is no such past).
    pub fn new(now_ms: u64) -> (r: Debounce)
        ensures
            r.last_icons_ms == r.last_taskbar_ms == r.last_windows_ms,
            r.last_icons_ms == (if now_ms >= 400 { now_ms - 400 } else { now_ms as int }),
    {
        let epoch = if now_ms >= 400 { now_ms - 400 } else { now_ms };
        Debounce { last_icons_ms: epoch, last_taskbar_ms: epoch, last_windows_ms: epoch }
    }

    /// The command a press for `target` sends at `now`, if any: a toggle
    /// when its debounce allows it (which restarts that toggle's debounce),
    /// nothing for a debounced press or for `Other`.
    pub fn fire(&mut self, target: HotkeyTarget, now_ms: u64) -> (r: Option<Cmd>)
        ensures
            match target {
                HotkeyTarget::Icons => if debounce_allows(old(self).last_icons_ms, now_ms) {
                    r matches Some(Cmd::ToggleIcons) && final(self).last_icons_ms == now_ms
                } else {
                    r is None && final(self).last_icons_ms == old(self).last_icons_ms
                },
                HotkeyTarget::Taskbar => if debounce_allows(old(self).last_taskbar_ms, now_ms) {
                    r matches Some(Cmd::ToggleTaskbar) && final(self).last_taskbar_ms == now_ms
                } else {
                    r is None && final(self).last_taskbar_ms == old(self).last_taskbar_ms
                },
                HotkeyTarget::Windows => if debounce_allows(old(self).last_windows_ms, now_ms) {
                    r matches Some(Cmd::ToggleWindows) && final(self).last_windows_ms == now_ms
                } else {
                    r is None && final(self).last_windows_ms == old(self).last_windows_ms
                },
                HotkeyTarget::Other => r is None && *final(self) == *old(self),
            },
            target != HotkeyTarget::Icons ==> final(self).last_icons_ms == old(self).last_icons_ms,
            target != HotkeyTarget::Taskbar ==> final(self).last_taskbar_ms == old(
                self,
            ).last_taskbar_ms,
            target != HotkeyTarget::Windows ==> final(self).last_windows_ms == old(
                self,
            ).last_windows_ms,
    {
        match target {
            HotkeyTarget::Icons => {
                if now_ms >= self.last_icons_ms && now_ms - self.last_icons_ms >= 400 {
                    self.last_icons_ms = now_ms;
                    Some(Cmd::ToggleIcons)
                } else {
                    None
                }
            },
            HotkeyTarget::Taskbar => {
                if now_ms >= self.last_taskbar_ms && now_ms - self.last_taskbar_ms >= 400 {
                    self.last_taskbar_ms = now_ms;
                    Some(Cmd::ToggleTaskbar)
                } else {
                    None
                }
            },
            HotkeyTarget::Windows => {
                if now_ms >= self.last_windows_ms && now_ms - self.last_windows_ms >= 400 {
                    self.last_windows_ms = now_ms;
                    Some(Cmd::ToggleWindows)
                } else {
                    None
                }
            },
            HotkeyTarget::Other => None,
        }
    }
}

/// A press repeated within the debounce interval sends nothing.
pub proof fn lemma_repeat_press_debounced(last: u64, now: u64, again: u64)
    requires
        debounce_allows(last, now),
        now <= again < now + debounce_ms(),
    ensures
        !debounce_allows(now, again),
{
}

// ---------------------------------------------------------------- the tray menu

/// An entry of the tray menu.
#[derive(Debug, Clone, Copy, PartialEq, Eq, Structural)]
pub enum MenuItem {
    ToggleIcons,
    ToggleTaskbar,
    ToggleWindows,
    Settings,
    CheckUpdates,
    Restart,
    Exit,
    /// The profile at this position of the Profiles submenu.
    Profile(usize),
}

/// The command a menu click sends. The update entry sends none (the loop
/// has no handler for it), nor does a profile entry past the list.
pub fn menu_command(item: MenuItem, profile_names: &Vec<String>) -> (r: Option<Cmd>)
    ensures
        match item {
            MenuItem::ToggleIcons => r matches Some(Cmd::ToggleIcons),
            MenuItem::ToggleTaskbar => r matches Some(Cmd::ToggleTaskbar),
            MenuItem::ToggleWindows => r matches Some(Cmd::ToggleWindows),
            MenuItem::Settings => r matches Some(Cmd::OpenSettings),
            MenuItem::CheckUpdates => r is None,
            MenuItem::Restart => r matches Some(Cmd::Restart),
            MenuItem::Exit => r matches Some(Cmd::Exit),
            MenuItem::Profile(i) => if i < profile_names.len() {
                r matches Some(Cmd::ApplyProfile(n)) && n@ == profile_names@[i as int]@
            } else {
                r is None
            },
        },
{
    match item {
        MenuItem::ToggleIcons => Some(Cmd::ToggleIcons),
        MenuItem::ToggleTaskbar => Some(Cmd::ToggleTaskbar),
        MenuItem::ToggleWindows => Some(Cmd::ToggleWindows),
        MenuItem::Settings => Some(Cmd::OpenSettings),
        MenuItem::CheckUpdates => None,
        MenuItem::Restart => Some(Cmd::Restart),
        MenuItem::Exit => Some(Cmd::Exit),
        MenuItem::Profile(i) => {
            if i < profile_names.len() {
                Some(Cmd::ApplyProfile(profile_names[i].clone()))
            } else {
                None
            }
        },
    }
}

// ---------------------------------------------------------------- toggles

/// Which of the three things a toggle is for.
#[derive(Debug, Clone, Copy, PartialEq, Eq, Structural)]
pub enum Toggle {
    Icons,
    Taskbar,
    Windows,
}

/// The effect of a toggle: show what is hidden, hide what is shown.
pub open spec fn toggle_effect_spec(t: Toggle, s: StateView) -> Effect {
    match t {
        Toggle::Icons => if s.icons_hidden {
            Effect::ShowIcons
        } else {
            Effect::HideIcons
        },
        Toggle::Taskbar => if s.taskbar_hidden {
            Effect::ShowTaskbar
        } else {
            Effect::HideTaskbar
        },
        Toggle::Windows => if s.windows_hidden {
            Effect::RestoreWindows
        } else {
            Effect::HideWindows
        },
    }
}

/// The effect that carries out a toggle in the current state.
pub fn toggle_effect(t: Toggle, state: &AppState) -> (r: Effect)
    ensures
        r == toggle_effect_spec(t, state@),
{
    match t {
        Toggle::Icons => if state.icons_hidden {
            Effect::ShowIcons
        } else {
            Effect::HideIcons
        },
        Toggle::Taskbar => if state.taskbar_hidden {
            Effect::ShowTaskbar
        } else {
            Effect::HideTaskbar
        },
        Toggle::Windows => if state.windows_hidden {
            Effect::RestoreWindows
        } else {
            Effect::HideWindows
        },
    }
}

/// A successful toggle flips exactly the toggled flag.
pub proof fn lemma_toggle_flips(t: Toggle, s: StateView, hidden: Seq<crate::state::HiddenWindow>)
    ensures
        ({
            let n = crate::profiles::record_spec(s, toggle_effect_spec(t, s), hidden);
            match t {
                Toggle::Icons => n.icons_hidden == !s.icons_hidden && n.taskbar_hidden
                    == s.taskbar_hidden && n.windows_hidden == s.windows_hidden,
                Toggle::Taskbar => n.taskbar_hidden == !s.taskbar_hidden && n.icons_hidden
                    == s.icons_hidden && n.windows_hidden == s.windows_hidden,
                Toggle::Windows => n.windows_hidden == !s.windows_hidden && n.icons_hidden
                    == s.icons_hidden && n.taskbar_hidden == s.taskbar_hidden,
            }
        }),
{
}

/// Toggling the same thing twice, both times successfully, brings back
/// what was hidden before, and leaves the other two and the active profile
/// alone; after hiding and restoring windows, no hidden window is kept.
pub proof fn lemma_toggle_twice_restores(
    t: Toggle,
    s: StateView,
    first: Seq<crate::state::HiddenWindow>,
    second: Seq<crate::state::HiddenWindow>,
)
    ensures
        ({
            let s1 = crate::profiles::record_spec(s, toggle_effect_spec(t, s), first);
            let s2 = crate::profiles::record_spec(s1, toggle_effect_spec(t, s1), second);
            &&& s2.icons_hidden == s.icons_hidden
            &&& s2.taskbar_hidden == s.taskbar_hidden
            &&& s2.windows_hidden == s.windows_hidden
            &&& s2.active_profile == s.active_profile
            &&& (t == Toggle::Windows && !s.windows_hidden) ==> s2.hidden_windows.len() == 0
        }),
{
}

// ---------------------------------------------------------------- presence and updates

/// The presence message after a state change: `None` when the presence is
/// switched off, else the message for what is hidden.
pub fn update_discord(state: &AppState, config: &AppConfig) -> (r: Option<Option<Presence>>)
    ensures
        match r {
            None => !config.discord.enabled,
            Some(m) => config.discord.enabled && opt_presence_view(m) == presence_for(
                state.icons_hidden,
                state.taskbar_hidden,
                state.windows_hidden,
                opt_string_view(state.active_profile),
            ),
        },
{
    if config.discord.enabled {
        Some(
            set_rich_presence(
                state.icons_hidden,
                state.taskbar_hidden,
                state.windows_hidden,
                copy_opt_string(&state.active_profile),
            ),
        )
    } else {
        None
    }
}

/// The update check interval in milliseconds.
pub open spec fn interval_ms(hours: u32) -> u64 {
    (hours as u64 * 3600000) as u64
}

/// When the update check counts as last done at start-up: one interval
/// ago, so that the first check is due at once (or now, when the clock
/// does not reach back that far).
pub fn initial_update_check_ms(now_ms: u64, interval_h: u32) -> (r: u64)
    ensures
        r == (if now_ms >= interval_ms(interval_h) { now_ms - interval_ms(interval_h) } else { now_ms as int }),
{
    let interval = interval_h as u64 * 3600000;
    if now_ms >= interval {
        now_ms - interval
    } else {
        now_ms
    }
}

/// Whether the periodic update check is due: it is enabled and a whole
/// interval has passed since the last one.
pub fn update_check_due(enabled: bool, last_ms: u64, now_ms: u64, interval_h: u32) -> (r: bool)
    ensures
        r == (enabled && now_ms >= last_ms && now_ms - last_ms >= interval_ms(interval_h)),
{
    let interval = interval_h as u64 * 3600000;
    enabled && now_ms >= last_ms && now_ms - last_ms >= interval
}

/// Whether a background check runs at all: when checks are enabled or the
/// user asked for one.
pub fn should_run_check(enabled: bool, user_triggered: bool) -> (r: bool)
    ensures
        r == (enabled || user_triggered),
{
    enabled || user_triggered
}

/// The command that reports a background check's result: the new version,
/// "up to date" only when the user asked, nothing on failure.
pub fn check_outcome(result: Result<Option<String>, String>, user_triggered: bool) -> (r: Option<
    Cmd,
>)
    ensures
        match result {
            Ok(Some(v)) => r matches Some(Cmd::UpdateAvailable(w)) && w@ == v@,
            Ok(None) => if user_triggered {
                r matches Some(Cmd::UpToDate)
            } else {
                r is None
            },
            Err(_) => r is None,
        },
{
    match result {
        Ok(Some(v)) => Some(Cmd::UpdateAvailable(v)),
        Ok(None) => if user_triggered {
            Some(Cmd::UpToDate)
        } else {
            None
        },
        Err(_) => None,
    }
}

/// The profile to apply at launch, if one is configured.
pub fn launch_profile(config: &AppConfig) -> (r: Option<String>)
    ensures
        match r {
            Some(n) => config@.defaults.profile.len() > 0 && n@ == config@.defaults.profile,
            None => config@.defaults.profile.len() == 0,
        },
{
    if config.defaults.profile.as_str().is_empty() {
        None
    } else {
        Some(config.defaults.profile.clone())
    }
}

} // verus!
