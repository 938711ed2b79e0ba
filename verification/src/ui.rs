//! The settings window's model: its tabs, its editable copy of the
//! configuration, and the decisions behind its widgets.

use vstd::prelude::*;
use vstd::string::*;

use crate::commands::Cmd;
use crate::config::{
    default_profile_view, profiles_view, strings_view, AppConfig, ConfigView, HotkeysConfig,
    HotkeysView, ProfileConfig,
};
use crate::discord::{hidden_list, hidden_list_spec};
use crate::state::{opt_string_view, AppState};
use crate::text::{chars_of, string_from_chars, u64_to_decimal, decimal, has_prefix, starts_with_chars};

verus! {

/// A tab of the settings window.
#[derive(Debug, Clone, Copy, PartialEq, Eq, Structural)]
pub enum Tab {
    Hotkeys,
    Profiles,
    Startup,
    Notifications,
    Updater,
    Discord,
    General,
    About,
}

/// The tabs in the order they are shown.
pub open spec fn all_tabs() -> Seq<Tab> {
    seq![
        Tab::Hotkeys,
        Tab::Profiles,
        Tab::Startup,
        Tab::Notifications,
        Tab::Updater,
        Tab::Discord,
        Tab::General,
        Tab::About,
    ]
}

/// The caption of a tab.
pub open spec fn tab_label(t: Tab) -> Seq<char> {
    match t {
        Tab::Hotkeys => "Hotkeys"@,
        Tab::Profiles => "Profiles"@,
        Tab::Startup => "Startup"@,
        Tab::Notifications => "Notifications"@,
        Tab::Updater => "Updater"@,
        Tab::Discord => "Discord"@,
        Tab::General => "General"@,
        Tab::About => "About"@,
    }
}

impl Tab {
    /// Every tab, in display order.
    pub fn all() -> (r: Vec<Tab>)
        ensures
            r@ == all_tabs(),
    {
        let v = vec![
            Tab::Hotkeys,
            Tab::Profiles,
            Tab::Startup,
            Tab::Notifications,
            Tab::Updater,
            Tab::Discord,
            Tab::General,
            Tab::About,
        ];
        assert(v@ =~= all_tabs());
        v
    }

    /// The tab's caption.
    pub fn label(self) -> (r: &'static str)
        ensures
            r@ == tab_label(self),
    {
        match self {
            Tab::Hotkeys => "Hotkeys",
            Tab::Profiles => "Profiles",
            Tab::Startup => "Startup",
            Tab::Notifications => "Notifications",
            Tab::Updater => "Updater",
            Tab::Discord => "Discord",
            Tab::General => "General",
            Tab::About => "About",
        }
    }
}

/// Every tab appears exactly once in the tab list.
pub proof fn lemma_tabs_distinct()
    ensures
        forall|i: int, j: int|
            0 <= i < all_tabs().len() && 0 <= j < all_tabs().len() && i != j ==> all_tabs()[i]
                != all_tabs()[j],
        forall|t: Tab| #[trigger] all_tabs().contains(t),
{
    assert forall|t: Tab| #[trigger] all_tabs().contains(t) by {
        match t {
            Tab::Hotkeys => assert(all_tabs()[0] == t),
            Tab::Profiles => assert(all_tabs()[1] == t),
            Tab::Startup => assert(all_tabs()[2] == t),
            Tab::Notifications => assert(all_tabs()[3] == t),
            Tab::Updater => assert(all_tabs()[4] == t),
            Tab::Discord => assert(all_tabs()[5] == t),
            Tab::General => assert(all_tabs()[6] == t),
            Tab::About => assert(all_tabs()[7] == t),
        }
    }
}

/// The hotkey field that the recorder is capturing.
#[derive(Debug, Clone, Copy, PartialEq, Eq, Structural)]
pub enum HotkeyField {
    Icons,
    Taskbar,
    Windows,
    /// The hotkey of the profile at this position.
    Profile(usize),
}

/// The caption of a hotkey field.
pub fn field_label(field: HotkeyField) -> (r: &'static str)
    ensures
        r@ == match field {
            HotkeyField::Icons => "Toggle Desktop Icons"@,
            HotkeyField::Taskbar => "Toggle Taskbar"@,
            HotkeyField::Windows => "Toggle App Windows"@,
            HotkeyField::Profile(_) => "Hotkey"@,
        },
{
    match field {
        HotkeyField::Icons => "Toggle Desktop Icons",
        HotkeyField::Taskbar => "Toggle Taskbar",
        HotkeyField::Windows => "Toggle App Windows",
        HotkeyField::Profile(_) => "Hotkey",
    }
}

/// The settings window's own state: its editable copy of the
/// configuration, the tab shown, the status lines, whether the copy has
/// unsaved changes, and which hotkey field is being recorded.
#[derive(Debug, Clone)]
pub struct SettingsApp {
    pub config: AppConfig,
    pub current_tab: Tab,
    pub update_status: Option<String>,
    pub startup_registered: bool,
    pub startup_error: Option<String>,
    /// Set by any change to the configuration; a save follows at the end of
    /// the frame.
    pub dirty: bool,
    pub recording_hotkey: Option<HotkeyField>,
    pub backup_status: Option<String>,
}

/// Whether the three toggle hotkeys are pairwise different.
pub open spec fn hotkeys_unique(h: HotkeysView) -> bool {
    h.icons != h.taskbar && h.icons != h.windows && h.taskbar != h.windows
}

/// Whether two window states agree on the tab shown and on the status
/// lines and flags that the configuration edits leave alone.
pub open spec fn keeps_status(a: SettingsApp, b: SettingsApp) -> bool {
    &&& a.current_tab == b.current_tab
    &&& a.update_status == b.update_status
    &&& a.startup_registered == b.startup_registered
    &&& a.startup_error == b.startup_error
    &&& a.backup_status == b.backup_status
}

impl SettingsApp {
    /// The window's state when it opens: the current configuration, the
    /// Hotkeys tab, no status, nothing unsaved, nothing recording.
    pub fn new(config: AppConfig, startup_registered: bool) -> (r: SettingsApp)
        ensures
            r.config@ == config@,
            r.current_tab == Tab::Hotkeys,
            r.update_status is None,
            r.startup_registered == startup_registered,
            r.startup_error is None,
            !r.dirty,
            r.recording_hotkey is None,
            r.backup_status is None,
    {
        SettingsApp {
            config,
            current_tab: Tab::Hotkeys,
            update_status: None,
            startup_registered,
            startup_error: None,
            dirty: false,
            recording_hotkey: None,
            backup_status: None,
        }
    }

    /// Whether the end of this frame saves: only when there are unsaved
    /// changes and the three hotkeys are distinct. The unsaved flag is
    /// cleared either way; a blocked save waits for the next change.
    pub fn take_save_request(&mut self) -> (r: bool)
        ensures
            r == (old(self).dirty && hotkeys_unique(old(self).config.hotkeys@)),
            !final(self).dirty,
            final(self).config@ == old(self).config@,
            final(self).recording_hotkey == old(self).recording_hotkey,
            keeps_status(*final(self), *old(self)),
    {
        if !self.dirty {
            return false;
        }
        self.dirty = false;
        hotkeys_distinct(&self.config.hotkeys)
    }

    /// Takes the three hotkeys from the editors; a change marks the
    /// configuration unsaved.
    pub fn apply_hotkey_edits(&mut self, icons: String, taskbar: String, windows: String)
        ensures
            final(self).config@ == (ConfigView {
                hotkeys: HotkeysView { icons: icons@, taskbar: taskbar@, windows: windows@ },
                ..old(self).config@
            }),
            final(self).dirty == (old(self).dirty || icons@ != old(self).config.hotkeys.icons@
                || taskbar@ != old(self).config.hotkeys.taskbar@ || windows@ != old(
                self,
            ).config.hotkeys.windows@),
            final(self).recording_hotkey == old(self).recording_hotkey,
            keeps_status(*final(self), *old(self)),
    {
        if !icons.eq(&self.config.hotkeys.icons) || !taskbar.eq(&self.config.hotkeys.taskbar)
            || !windows.eq(&self.config.hotkeys.windows) {
            self.config.hotkeys.icons = icons;
            self.config.hotkeys.taskbar = taskbar;
            self.config.hotkeys.windows = windows;
            self.dirty = true;
        }
    }

    /// Starts recording `field`, or stops when it is already recording.
    pub fn toggle_recording(&mut self, field: HotkeyField)
        ensures
            final(self).recording_hotkey == (if old(self).recording_hotkey == Some(field) {
                None
            } else {
                Some(field)
            }),
            final(self).config@ == old(self).config@,
            final(self).dirty == old(self).dirty,
            keeps_status(*final(self), *old(self)),
    {
        let recording = match self.recording_hotkey {
            Some(f) => f == field,
            None => false,
        };
        self.recording_hotkey = if recording { None } else { Some(field) };
    }

    /// Adds a new profile with the default settings.
    pub fn add_profile(&mut self)
        ensures
            final(self).config@ == (ConfigView {
                profiles: old(self).config@.profiles.push(default_profile_view()),
                ..old(self).config@
            }),
            final(self).dirty,
            final(self).recording_hotkey == old(self).recording_hotkey,
            keeps_status(*final(self), *old(self)),
    {
        let ghost before = self.config.profiles@;
        self.config.profiles.push(ProfileConfig::default());
        assert(profiles_view(self.config.profiles@) =~= profiles_view(before).push(
            default_profile_view(),
        ));
        self.dirty = true;
    }

    /// Removes the profile at `index`.
    pub fn remove_profile(&mut self, index: usize)
        requires
            index < old(self).config.profiles.len(),
        ensures
            final(self).config@ == (ConfigView {
                profiles: old(self).config@.profiles.remove(index as int),
                ..old(self).config@
            }),
            final(self).dirty,
            final(self).recording_hotkey == old(self).recording_hotkey,
            keeps_status(*final(self), *old(self)),
    {
        let ghost before = self.config.profiles@;
        self.config.profiles.remove(index);
        assert(profiles_view(self.config.profiles@) =~= profiles_view(before).remove(index as int));
        self.dirty = true;
    }
}

/// Whether the three hotkeys are pairwise different.
pub fn hotkeys_distinct(h: &HotkeysConfig) -> (r: bool)
    ensures
        r == hotkeys_unique(h@),
{
    !h.icons.eq(&h.taskbar) && !h.icons.eq(&h.windows) && !h.taskbar.eq(&h.windows)
}

/// The text of a status chip: "<name>: hidden" or "<name>: shown".
pub fn status_chip_text(name: &str, hidden: bool) -> (r: String)
    ensures
        r@ == name@ + (if hidden { ": hidden"@ } else { ": shown"@ }),
{
    let mut s = String::from_str(name);
    if hidden {
        s.append(": hidden");
    } else {
        s.append(": shown");
    }
    s
}

/// The choices of the launch-profile menu: "(none)", then every profile's
/// name.
pub fn default_profile_choices(profiles: &Vec<ProfileConfig>) -> (r: Vec<String>)
    ensures
        strings_view(r@) == seq!["(none)"@] + profiles_view(profiles@).map_values(
            |p: crate::config::ProfileView| p.name,
        ),
{
    let ghost names = profiles_view(profiles@).map_values(|p: crate::config::ProfileView| p.name);
    let mut v: Vec<String> = Vec::new();
    v.push(String::from_str("(none)"));
    let mut i: usize = 0;
    while i < profiles.len()
        invariant
            i <= profiles.len(),
            names == profiles_view(profiles@).map_values(|p: crate::config::ProfileView| p.name),
            strings_view(v@) == seq!["(none)"@] + names.take(i as int),
        decreases profiles.len() - i,
    {
        let ghost before = v@;
        let n = profiles[i].name.clone();
        assert(names[i as int] == n@);
        v.push(n);
        assert(strings_view(v@) =~= strings_view(before).push(n@));
        assert(names.take(i + 1) =~= names.take(i as int).push(n@));
        i = i + 1;
        assert(strings_view(v@) =~= seq!["(none)"@] + names.take(i as int));
    }
    assert(names.take(profiles.len() as int) =~= names);
    v
}

/// The launch profile as the menu shows it: its name, or "(none)".
pub fn default_profile_label(config: &AppConfig) -> (r: String)
    ensures
        r@ == (if config@.defaults.profile.len() == 0 {
            "(none)"@
        } else {
            config@.defaults.profile
        }),
{
    if config.defaults.profile.as_str().is_empty() {
        String::from_str("(none)")
    } else {
        config.defaults.profile.clone()
    }
}

/// The launch-profile setting for a menu choice: "(none)" means no
/// profile.
pub fn default_profile_value(choice: &str) -> (r: String)
    ensures
        r@ == (if choice@ == "(none)"@ { Seq::<char>::empty() } else { choice@ }),
{
    let c = chars_of(choice);
    if crate::text::chars_eq_str(&c, "(none)") {
        String::new()
    } else {
        String::from_str(choice)
    }
}

// ---------------------------------------------------------------- updater tab

/// How a status line of the updater tab is coloured.
#[derive(Debug, Clone, Copy, PartialEq, Eq, Structural)]
pub enum StatusKind {
    /// An update is available.
    Notice,
    /// The check failed.
    Failure,
    /// Anything else.
    Fine,
}

/// The status line and command for a finished check: the new version
/// (also sent to the main loop for a notification), "up to date", or the
/// failure.
pub fn update_status_for(result: Result<Option<String>, String>) -> (r: (String, Option<Cmd>))
    ensures
        match result {
            Ok(Some(v)) => r.0@ == "Update available: v"@ + v@ && (r.1 matches Some(
                Cmd::UpdateAvailable(w),
            ) && w@ == v@),
            Ok(None) => r.0@ == "You are up to date!"@ && r.1 is None,
            Err(e) => r.0@ == "Check failed: "@ + e@ && r.1 is None,
        },
{
    match result {
        Ok(Some(v)) => {
            let mut s = String::from_str("Update available: v");
            s.append(v.as_str());
            (s, Some(Cmd::UpdateAvailable(v)))
        },
        Ok(None) => (String::from_str("You are up to date!"), None),
        Err(e) => {
            let mut s = String::from_str("Check failed: ");
            s.append(e.as_str());
            (s, None)
        },
    }
}

/// The colour class of a status line, by how it begins.
pub fn status_kind(status: &str) -> (r: StatusKind)
    ensures
        r == (if has_prefix(status@, "Update available"@) {
            StatusKind::Notice
        } else if has_prefix(status@, "Check failed"@) {
            StatusKind::Failure
        } else {
            StatusKind::Fine
        }),
{
    let s = chars_of(status);
    if starts_with_chars(&s, &chars_of("Update available")) {
        StatusKind::Notice
    } else if starts_with_chars(&s, &chars_of("Check failed")) {
        StatusKind::Failure
    } else {
        StatusKind::Fine
    }
}

/// The note under the updater settings, e.g. "Auto-checks every 24 hours."
pub fn auto_check_text(hours: u32) -> (r: String)
    ensures
        r@ == "Auto-checks every "@ + decimal(hours as nat) + " hour"@ + (if hours == 1 {
            ""@
        } else {
            "s"@
        }) + "."@,
{
    let mut s = String::from_str("Auto-checks every ");
    let n = u64_to_decimal(hours as u64);
    s.append(n.as_str());
    s.append(" hour");
    if hours == 1 {
        s.append("");
    } else {
        s.append("s");
    }
    s.append(".");
    s
}

// ---------------------------------------------------------------- other tabs

/// The debug text that the About tab copies: version, build target and
/// build date, and the repository.
pub fn debug_info(version: &str, target: &str, date: &str) -> (r: String)
    ensures
        r@ == "HideDesktopApps v"@ + version@ + " ("@ + target@ + ") built "@ + date@
            + "\nRepo: https://github.com/Londopy/HideDesktopApps"@,
{
    let mut s = String::from_str("HideDesktopApps v");
    s.append(version);
    s.append(" (");
    s.append(target);
    s.append(") built ");
    s.append(date);
    s.append("\nRepo: https://github.com/Londopy/HideDesktopApps");
    s
}

/// The Discord tab's preview of the two presence lines for a state.
pub fn presence_preview(state: &AppState) -> (r: (String, String))
    ensures
        r.0@ == (if hidden_list_spec(state.icons_hidden, state.taskbar_hidden, state.windows_hidden).len() == 0 {
            "(nothing hidden \u{2014} presence is cleared)"@
        } else {
            "Hiding "@ + hidden_list_spec(state.icons_hidden, state.taskbar_hidden, state.windows_hidden)
        }),
        r.1@ == match opt_string_view(state.active_profile) {
            Some(n) => "Profile: "@ + n,
            None => "Custom setup"@,
        },
{
    let list = hidden_list(state.icons_hidden, state.taskbar_hidden, state.windows_hidden);
    let details = if list.as_str().is_empty() {
        String::from_str("(nothing hidden \u{2014} presence is cleared)")
    } else {
        let mut d = String::from_str("Hiding ");
        d.append(list.as_str());
        d
    };
    let line = match &state.active_profile {
        Some(name) => {
            let mut s = String::from_str("Profile: ");
            s.append(name.as_str());
            s
        },
        None => String::from_str("Custom setup"),
    };
    (details, line)
}

/// What the key box keeps of typed text: its ASCII letters, upper-cased.
pub open spec fn key_input_filter(s: Seq<char>) -> Seq<char>
    decreases s.len(),
{
    if s.len() == 0 {
        Seq::empty()
    } else {
        let c = s.last();
        key_input_filter(s.drop_last()) + (if 'a' <= c && c <= 'z' {
            seq![crate::text::ascii_upper(c)]
        } else if 'A' <= c && c <= 'Z' {
            seq![c]
        } else {
            Seq::empty()
        })
    }
}

/// Keeps the ASCII letters of typed text, upper-cased.
pub fn sanitize_key_input(s: &str) -> (r: String)
    ensures
        r@ == key_input_filter(s@),
{
    let cs = chars_of(s);
    let mut out: Vec<char> = Vec::new();
    let mut i: usize = 0;
    while i < cs.len()
        invariant
            i <= cs.len(),
            cs@ == s@,
            out@ == key_input_filter(cs@.take(i as int)),
        decreases cs.len() - i,
    {
        assert(cs@.take(i + 1).drop_last() =~= cs@.take(i as int));
        let c = cs[i];
        if 'a' <= c && c <= 'z' {
            out.push(crate::text::to_ascii_upper(c));
        } else if 'A' <= c && c <= 'Z' {
            out.push(c);
        }
        i = i + 1;
        assert(out@ =~= key_input_filter(cs@.take(i as int)));
    }
    assert(cs@.take(cs.len() as int) =~= cs@);
    string_from_chars(out.as_slice())
}

/// The look of the settings window for a theme name.
#[derive(Debug, Clone, Copy)]
pub struct ThemeStyle {
    /// Light rather than dark visuals.
    pub light: bool,
    /// The hyperlink and selection colours (RGB), when the theme sets them.
    pub accent: Option<((u8, u8, u8), (u8, u8, u8))>,
}

/// The themes that the General tab offers.
pub open spec fn theme_names() -> Seq<Seq<char>> {
    seq!["Dark"@, "Light"@, "Ocean"@, "Rose"@, "Forest"@]
}

/// The theme names, in the order the General tab lists them.
pub fn themes() -> (r: Vec<&'static str>)
    ensures
        r@.len() == theme_names().len(),
        forall|i: int| 0 <= i < r@.len() ==> #[trigger] r@[i]@ == theme_names()[i],
{
    let v: Vec<&'static str> = vec!["Dark", "Light", "Ocean", "Rose", "Forest"];
    proof {
        reveal_strlit("Dark");
        reveal_strlit("Light");
        reveal_strlit("Ocean");
        reveal_strlit("Rose");
        reveal_strlit("Forest");
        assert(v@[0]@ == theme_names()[0]);
    }
    v
}

/// The look of a theme: "Light" is light, every other name dark; Ocean,
/// Rose and Forest also set the link and selection colours.
pub open spec fn theme_style_spec(theme: Seq<char>) -> ThemeStyle {
    ThemeStyle {
        light: theme == "Light"@,
        accent: if theme == "Ocean"@ {
            Some(((0, 170, 255), (0, 90, 160)))
        } else if theme == "Rose"@ {
            Some(((255, 110, 170), (150, 40, 90)))
        } else if theme == "Forest"@ {
            Some(((120, 220, 120), (40, 120, 60)))
        } else {
            None
        },
    }
}

/// The look of the named theme.
pub fn theme_style(theme: &str) -> (r: ThemeStyle)
    ensures
        r == theme_style_spec(theme@),
{
    let t = chars_of(theme);
    let light = crate::text::chars_eq_str(&t, "Light");
    let accent = if crate::text::chars_eq_str(&t, "Ocean") {
        Some(((0u8, 170u8, 255u8), (0u8, 90u8, 160u8)))
    } else if crate::text::chars_eq_str(&t, "Rose") {
        Some(((255u8, 110u8, 170u8), (150u8, 40u8, 90u8)))
    } else if crate::text::chars_eq_str(&t, "Forest") {
        Some(((120u8, 220u8, 120u8), (40u8, 120u8, 60u8)))
    } else {
        None
    };
    ThemeStyle { light, accent }
}

} // verus!
