//! The application's configuration: its sections, their defaults, and the
//! reader for the legacy `config.ini` format.

use vstd::prelude::*;
use vstd::string::*;

use crate::text::{
    chars_eq_str, chars_of, eq_ignore_ascii_case, eq_ignore_ascii_case_chars, parse_u32,
    parse_u32_spec, split_chars, split_on, string_from_chars, strip_all_prefix,
    strip_all_prefix_chars, sub_chars, to_lowercase, trim, trim_chars, lowercase,
    decimal, u64_to_decimal,
};

verus! {

// ---------------------------------------------------------------- types

/// The three global hotkeys, as strings such as `"ctrl+alt+h"`.
#[derive(Debug, Clone)]
pub struct HotkeysConfig {
    pub icons: String,
    pub taskbar: String,
    pub windows: String,
}

/// Whether the app runs at logon, and after how many seconds.
#[derive(Debug, Clone, Copy)]
pub struct StartupConfig {
    pub enabled: bool,
    pub delay_s: u32,
}

/// The profile applied at launch; empty for none.
#[derive(Debug, Clone)]
pub struct DefaultsConfig {
    pub profile: String,
}

/// Settings of the update checker.
#[derive(Debug, Clone)]
pub struct UpdaterConfig {
    pub enabled: bool,
    pub channel: String,
    pub check_interval_h: u32,
    pub last_checked: String,
}

/// Which events raise a toast notification.
#[derive(Debug, Clone, Copy)]
pub struct NotificationsConfig {
    pub enabled: bool,
    pub on_update: bool,
    pub on_hotkey_fail: bool,
    pub on_profile_switch: bool,
}

/// Whether Discord rich presence is shown.
#[derive(Debug, Clone, Copy)]
pub struct DiscordConfig {
    pub enabled: bool,
}

/// Processes whose windows are never hidden.
#[derive(Debug, Clone)]
pub struct WindowFilterConfig {
    pub exclude_processes: Vec<String>,
}

/// A named preset of what to hide, optionally bound to a hotkey.
#[derive(Debug, Clone)]
pub struct ProfileConfig {
    pub name: String,
    pub hotkey: String,
    pub icons: bool,
    pub taskbar: bool,
    pub windows: bool,
}

/// The whole configuration file.
#[derive(Debug, Clone)]
pub struct AppConfig {
    pub hotkeys: HotkeysConfig,
    pub startup: StartupConfig,
    pub defaults: DefaultsConfig,
    pub updater: UpdaterConfig,
    pub notifications: NotificationsConfig,
    pub discord: DiscordConfig,
    pub window_filter: WindowFilterConfig,
    pub profiles: Vec<ProfileConfig>,
}

// ---------------------------------------------------------------- views

/// Mathematical model of [`HotkeysConfig`].
pub struct HotkeysView {
    pub icons: Seq<char>,
    pub taskbar: Seq<char>,
    pub windows: Seq<char>,
}

/// Mathematical model of [`DefaultsConfig`].
pub struct DefaultsView {
    pub profile: Seq<char>,
}

/// Mathematical model of [`UpdaterConfig`].
pub struct UpdaterView {
    pub enabled: bool,
    pub channel: Seq<char>,
    pub check_interval_h: u32,
    pub last_checked: Seq<char>,
}

/// Mathematical model of [`ProfileConfig`].
pub struct ProfileView {
    pub name: Seq<char>,
    pub hotkey: Seq<char>,
    pub icons: bool,
    pub taskbar: bool,
    pub windows: bool,
}

/// Mathematical model of [`AppConfig`].
pub struct ConfigView {
    pub hotkeys: HotkeysView,
    pub startup: StartupConfig,
    pub defaults: DefaultsView,
    pub updater: UpdaterView,
    pub notifications: NotificationsConfig,
    pub discord: DiscordConfig,
    pub exclude_processes: Seq<Seq<char>>,
    pub profiles: Seq<ProfileView>,
}

impl View for HotkeysConfig {
    type V = HotkeysView;

    open spec fn view(&self) -> HotkeysView {
        HotkeysView { icons: self.icons@, taskbar: self.taskbar@, windows: self.windows@ }
    }
}

impl View for DefaultsConfig {
    type V = DefaultsView;

    open spec fn view(&self) -> DefaultsView {
        DefaultsView { profile: self.profile@ }
    }
}

impl View for UpdaterConfig {
    type V = UpdaterView;

    open spec fn view(&self) -> UpdaterView {
        UpdaterView {
            enabled: self.enabled,
            channel: self.channel@,
            check_interval_h: self.check_interval_h,
            last_checked: self.last_checked@,
        }
    }
}

impl View for ProfileConfig {
    type V = ProfileView;

    open spec fn view(&self) -> ProfileView {
        ProfileView {
            name: self.name@,
            hotkey: self.hotkey@,
            icons: self.icons,
            taskbar: self.taskbar,
            windows: self.windows,
        }
    }
}

/// The models of a list of profiles.
pub open spec fn profiles_view(ps: Seq<ProfileConfig>) -> Seq<ProfileView> {
    ps.map_values(|p: ProfileConfig| p@)
}

/// The models of a list of strings.
pub open spec fn strings_view(ss: Seq<String>) -> Seq<Seq<char>> {
    ss.map_values(|s: String| s@)
}

impl View for AppConfig {
    type V = ConfigView;

    open spec fn view(&self) -> ConfigView {
        ConfigView {
            hotkeys: self.hotkeys@,
            startup: self.startup,
            defaults: self.defaults@,
            updater: self.updater@,
            notifications: self.notifications,
            discord: self.discord,
            exclude_processes: strings_view(self.window_filter.exclude_processes@),
            profiles: profiles_view(self.profiles@),
        }
    }
}

// ---------------------------------------------------------------- defaults

/// The default hotkeys: Ctrl+Alt+H, Ctrl+Alt+T and Ctrl+Alt+W.
pub open spec fn default_hotkeys_view() -> HotkeysView {
    HotkeysView { icons: "ctrl+alt+h"@, taskbar: "ctrl+alt+t"@, windows: "ctrl+alt+w"@ }
}

/// The default updater settings: enabled, stable channel, every 24 hours.
pub open spec fn default_updater_view() -> UpdaterView {
    UpdaterView {
        enabled: true,
        channel: "stable"@,
        check_interval_h: 24,
        last_checked: Seq::<char>::empty(),
    }
}

/// The profile that a new entry in the profile list starts as.
pub open spec fn default_profile_view() -> ProfileView {
    ProfileView {
        name: "Default"@,
        hotkey: Seq::<char>::empty(),
        icons: true,
        taskbar: false,
        windows: false,
    }
}

/// The three profiles of a fresh configuration.
pub open spec fn default_profiles_view() -> Seq<ProfileView> {
    seq![
        ProfileView { name: "Focus"@, hotkey: "ctrl+alt+f"@, icons: true, taskbar: true, windows: false },
        ProfileView {
            name: "Presentation"@,
            hotkey: "ctrl+alt+p"@,
            icons: true,
            taskbar: true,
            windows: true,
        },
        ProfileView {
            name: "Clean Desktop"@,
            hotkey: Seq::<char>::empty(),
            icons: true,
            taskbar: false,
            windows: false,
        },
    ]
}

/// Processes never hidden by default.
pub open spec fn default_excluded_view() -> Seq<Seq<char>> {
    seq!["1password"@, "taskmgr"@, "winlogon"@]
}

/// A fresh configuration.
pub open spec fn default_config_view() -> ConfigView {
    ConfigView {
        hotkeys: default_hotkeys_view(),
        startup: StartupConfig { enabled: true, delay_s: 30 },
        defaults: DefaultsView { profile: Seq::<char>::empty() },
        updater: default_updater_view(),
        notifications: NotificationsConfig {
            enabled: true,
            on_update: true,
            on_hotkey_fail: true,
            on_profile_switch: false,
        },
        discord: DiscordConfig { enabled: true },
        exclude_processes: default_excluded_view(),
        profiles: default_profiles_view(),
    }
}

impl Default for HotkeysConfig {
    fn default() -> (r: Self)
        ensures
            r@ == default_hotkeys_view(),
    {
        HotkeysConfig {
            icons: String::from_str("ctrl+alt+h"),
            taskbar: String::from_str("ctrl+alt+t"),
            windows: String::from_str("ctrl+alt+w"),
        }
    }
}

impl Default for StartupConfig {
    fn default() -> (r: Self)
        ensures
            r == (StartupConfig { enabled: true, delay_s: 30 }),
    {
        StartupConfig { enabled: true, delay_s: 30 }
    }
}

impl Default for DefaultsConfig {
    fn default() -> (r: Self)
        ensures
            r@.profile == Seq::<char>::empty(),
    {
        DefaultsConfig { profile: String::new() }
    }
}

impl Default for UpdaterConfig {
    fn default() -> (r: Self)
        ensures
            r@ == default_updater_view(),
    {
        UpdaterConfig {
            enabled: true,
            channel: String::from_str("stable"),
            check_interval_h: 24,
            last_checked: String::new(),
        }
    }
}

impl Default for NotificationsConfig {
    fn default() -> (r: Self)
        ensures
            r == (NotificationsConfig {
                enabled: true,
                on_update: true,
                on_hotkey_fail: true,
                on_profile_switch: false,
            }),
    {
        NotificationsConfig {
            enabled: true,
            on_update: true,
            on_hotkey_fail: true,
            on_profile_switch: false,
        }
    }
}

impl Default for DiscordConfig {
    fn default() -> (r: Self)
        ensures
            r == (DiscordConfig { enabled: true }),
    {
        DiscordConfig { enabled: true }
    }
}

impl Default for WindowFilterConfig {
    fn default() -> (r: Self)
        ensures
            strings_view(r.exclude_processes@) == default_excluded_view(),
    {
        // never hide these: password managers and system processes
        let v = vec![
            String::from_str("1password"),
            String::from_str("taskmgr"),
            String::from_str("winlogon"),
        ];
        assert(strings_view(v@) =~= default_excluded_view());
        WindowFilterConfig { exclude_processes: v }
    }
}

impl Default for ProfileConfig {
    fn default() -> (r: Self)
        ensures
            r@ == default_profile_view(),
    {
        ProfileConfig {
            name: String::from_str("Default"),
            hotkey: String::new(),
            icons: true,
            taskbar: false,
            windows: false,
        }
    }
}

/// The three profiles of a fresh configuration: "Focus" (icons and taskbar,
/// Ctrl+Alt+F), "Presentation" (everything, Ctrl+Alt+P) and "Clean Desktop"
/// (icons only, no hotkey).
pub fn default_profiles() -> (r: Vec<ProfileConfig>)
    ensures
        profiles_view(r@) == default_profiles_view(),
{
    let v = vec![
        ProfileConfig {
            name: String::from_str("Focus"),
            hotkey: String::from_str("ctrl+alt+f"),
            icons: true,
            taskbar: true,
            windows: false,
        },
        ProfileConfig {
            name: String::from_str("Presentation"),
            hotkey: String::from_str("ctrl+alt+p"),
            icons: true,
            taskbar: true,
            windows: true,
        },
        ProfileConfig {
            name: String::from_str("Clean Desktop"),
            hotkey: String::new(),
            icons: true,
            taskbar: false,
            windows: false,
        },
    ];
    assert(profiles_view(v@) =~= default_profiles_view());
    v
}

impl Default for AppConfig {
    fn default() -> (r: Self)
        ensures
            r@ == default_config_view(),
    {
        AppConfig {
            hotkeys: HotkeysConfig::default(),
            startup: StartupConfig::default(),
            defaults: DefaultsConfig::default(),
            updater: UpdaterConfig::default(),
            notifications: NotificationsConfig::default(),
            discord: DiscordConfig::default(),
            window_filter: WindowFilterConfig::default(),
            profiles: default_profiles(),
        }
    }
}


// ---------------------------------------------------------------- legacy config.ini

/// Whether a legacy setting value means "on": `true` in any ASCII case, or `1`.
pub open spec fn ini_truthy(v: Seq<char>) -> bool {
    eq_ignore_ascii_case(v, "true"@) || v == "1"@
}

/// Whether `k` is the first position of `c` in `s`.
pub open spec fn is_first_index(s: Seq<char>, c: char, k: int) -> bool {
    0 <= k < s.len() && s[k] == c && forall|j: int| 0 <= j < k ==> s[j] != c
}

/// The name of a legacy setting: trimmed, lower-cased, and without any
/// leading `settings.` and then `hotkeys.` qualifiers.
pub open spec fn ini_key(raw: Seq<char>) -> Seq<char> {
    strip_all_prefix(strip_all_prefix(lowercase(trim(raw)), "settings."@), "hotkeys."@)
}

/// Whether `k` is the last position of `c` in `s`.
pub open spec fn is_last_index(s: Seq<char>, c: char, k: int) -> bool {
    0 <= k < s.len() && s[k] == c && forall|j: int| k < j < s.len() ==> s[j] != c
}

/// A hotkey string with its key (the text after the last `+`) replaced by
/// `key`; a string without `+` is all key.
pub open spec fn with_hotkey_key(h: Seq<char>, key: Seq<char>) -> Seq<char> {
    if exists|k: int| is_last_index(h, '+', k) {
        let k = choose|k: int| is_last_index(h, '+', k);
        h.take(k + 1) + key
    } else {
        key
    }
}

/// A hotkey string with its modifiers (the text before the last `+`)
/// replaced by `mods`.
pub open spec fn with_hotkey_mods(h: Seq<char>, mods: Seq<char>) -> Seq<char> {
    if exists|k: int| is_last_index(h, '+', k) {
        let k = choose|k: int| is_last_index(h, '+', k);
        mods + "+"@ + h.skip(k + 1)
    } else {
        mods + "+"@ + h
    }
}

/// The hotkey that a `[hotkey]`, `[hotkey_taskbar]` or `[hotkey_windows]`
/// section's `modifiers` or `key` setting changes: `<modifiers>+<key>`.
pub open spec fn ini_hotkey_part(h: Seq<char>, key: Seq<char>, value: Seq<char>) -> Seq<char> {
    if key == "modifiers"@ {
        with_hotkey_mods(h, value)
    } else {
        with_hotkey_key(h, value)
    }
}

/// Whether a setting in `section` is one of a hotkey section's two parts.
pub open spec fn is_hotkey_part(key: Seq<char>) -> bool {
    key == "modifiers"@ || key == "key"@
}

/// The effect of one `key = value` setting, read in `section`, on the
/// configuration and on the "icons start hidden" flag.
///
/// The sections of the documented layout: in `[hotkey]`,
/// `[hotkey_taskbar]` and `[hotkey_windows]`, `modifiers` and `key` set the
/// two parts of the icons, taskbar and windows hotkey, which reads
/// `<modifiers>+<key>`; in `[startup]`, `run_at_startup` switches startup
/// and `delay` sets its delay. Anywhere, the flat keys: `hotkey_icons` or
/// `icons`, `hotkey_taskbar` or `taskbar`, `hotkey_windows` or `windows`,
/// `startup_enabled` or `run_on_startup`, `startup_delay` or
/// `startup_delay_s`, `updater_enabled` or `auto_update`,
/// `discord_enabled` or `discord`, and `icons_hidden`. Unknown keys change
/// nothing, and so does a delay that is not a `u32`.
pub open spec fn ini_apply_setting(
    st: (ConfigView, bool),
    section: Seq<char>,
    key: Seq<char>,
    value: Seq<char>,
) -> (ConfigView, bool) {
    let c = st.0;
    let h = st.1;
    if section == "hotkey"@ && is_hotkey_part(key) {
        (ConfigView { hotkeys: HotkeysView { icons: ini_hotkey_part(c.hotkeys.icons, key, value), ..c.hotkeys }, ..c }, h)
    } else if section == "hotkey_taskbar"@ && is_hotkey_part(key) {
        (ConfigView { hotkeys: HotkeysView { taskbar: ini_hotkey_part(c.hotkeys.taskbar, key, value), ..c.hotkeys }, ..c }, h)
    } else if section == "hotkey_windows"@ && is_hotkey_part(key) {
        (ConfigView { hotkeys: HotkeysView { windows: ini_hotkey_part(c.hotkeys.windows, key, value), ..c.hotkeys }, ..c }, h)
    } else if section == "startup"@ && key == "run_at_startup"@ {
        (ConfigView { startup: StartupConfig { enabled: ini_truthy(value), ..c.startup }, ..c }, h)
    } else if section == "startup"@ && key == "delay"@ {
        match parse_u32_spec(value) {
            Some(d) => (ConfigView { startup: StartupConfig { delay_s: d, ..c.startup }, ..c }, h),
            None => st,
        }
    } else if key == "hotkey_icons"@ || key == "icons"@ {
        (ConfigView { hotkeys: HotkeysView { icons: value, ..c.hotkeys }, ..c }, h)
    } else if key == "hotkey_taskbar"@ || key == "taskbar"@ {
        (ConfigView { hotkeys: HotkeysView { taskbar: value, ..c.hotkeys }, ..c }, h)
    } else if key == "hotkey_windows"@ || key == "windows"@ {
        (ConfigView { hotkeys: HotkeysView { windows: value, ..c.hotkeys }, ..c }, h)
    } else if key == "startup_enabled"@ || key == "run_on_startup"@ {
        (ConfigView { startup: StartupConfig { enabled: ini_truthy(value), ..c.startup }, ..c }, h)
    } else if key == "startup_delay"@ || key == "startup_delay_s"@ {
        match parse_u32_spec(value) {
            Some(d) => (ConfigView { startup: StartupConfig { delay_s: d, ..c.startup }, ..c }, h),
            None => st,
        }
    } else if key == "updater_enabled"@ || key == "auto_update"@ {
        (ConfigView { updater: UpdaterView { enabled: ini_truthy(value), ..c.updater }, ..c }, h)
    } else if key == "discord_enabled"@ || key == "discord"@ {
        (ConfigView { discord: DiscordConfig { enabled: ini_truthy(value) }, ..c }, h)
    } else if key == "icons_hidden"@ {
        (c, ini_truthy(value))
    } else {
        st
    }
}

/// Whether a legacy value means "on", spelled out: `true` in any ASCII
/// case, or `1`.
pub open spec fn means_on(v: Seq<char>) -> bool {
    v.len() == 4 && crate::text::ascii_lower(v[0]) == 't' && crate::text::ascii_lower(v[1]) == 'r'
        && crate::text::ascii_lower(v[2]) == 'u' && crate::text::ascii_lower(v[3]) == 'e'
        || v == seq!['1']
}

proof fn lemma_truthy_means_on(v: Seq<char>)
    ensures
        ini_truthy(v) == means_on(v),
{
    reveal_strlit("true");
    reveal_strlit("1");
    assert("1"@ =~= seq!['1']);
    if v.len() == 4 && means_on(v) && v != seq!['1'] {
        assert(eq_ignore_ascii_case(v, "true"@)) by {
            assert forall|i: int| 0 <= i < 4 implies crate::text::ascii_lower(#[trigger] v[i])
                == crate::text::ascii_lower("true"@[i]) by {}
        }
    }
    if eq_ignore_ascii_case(v, "true"@) {
        assert(crate::text::ascii_lower(v[0]) == crate::text::ascii_lower("true"@[0]));
        assert(crate::text::ascii_lower(v[1]) == crate::text::ascii_lower("true"@[1]));
        assert(crate::text::ascii_lower(v[2]) == crate::text::ascii_lower("true"@[2]));
        assert(crate::text::ascii_lower(v[3]) == crate::text::ascii_lower("true"@[3]));
    }
}

/// Each legacy key sets its own field, in any section: the hotkeys to the
/// value, the switches to whether the value means "on" (`true` in any
/// ASCII case, or `1`), the delay to the value when it is a number and
/// otherwise not at all; in `[startup]`, `run_at_startup` and `delay` do
/// the same for startup.
pub proof fn lemma_ini_keys_set_fields(st: (ConfigView, bool), section: Seq<char>, v: Seq<char>)
    ensures
        ini_apply_setting(st, section, "hotkey_icons"@, v).0.hotkeys.icons == v,
        ini_apply_setting(st, section, "icons"@, v).0.hotkeys.icons == v,
        ini_apply_setting(st, section, "hotkey_taskbar"@, v).0.hotkeys.taskbar == v,
        ini_apply_setting(st, section, "taskbar"@, v).0.hotkeys.taskbar == v,
        ini_apply_setting(st, section, "hotkey_windows"@, v).0.hotkeys.windows == v,
        ini_apply_setting(st, section, "windows"@, v).0.hotkeys.windows == v,
        ini_apply_setting(st, section, "startup_enabled"@, v).0.startup.enabled == means_on(v),
        ini_apply_setting(st, section, "run_on_startup"@, v).0.startup.enabled == means_on(v),
        ini_apply_setting(st, section, "updater_enabled"@, v).0.updater.enabled == means_on(v),
        ini_apply_setting(st, section, "auto_update"@, v).0.updater.enabled == means_on(v),
        ini_apply_setting(st, section, "discord_enabled"@, v).0.discord.enabled == means_on(v),
        ini_apply_setting(st, section, "discord"@, v).0.discord.enabled == means_on(v),
        ini_apply_setting(st, section, "icons_hidden"@, v).1 == means_on(v),
        ini_apply_setting(st, section, "startup_delay"@, v).0.startup.delay_s == match parse_u32_spec(v) {
            Some(d) => d,
            None => st.0.startup.delay_s,
        },
        ini_apply_setting(st, section, "startup_delay_s"@, v).0.startup.delay_s == match parse_u32_spec(v) {
            Some(d) => d,
            None => st.0.startup.delay_s,
        },
        ini_apply_setting(st, "startup"@, "run_at_startup"@, v).0.startup.enabled == means_on(v),
        ini_apply_setting(st, "startup"@, "delay"@, v).0.startup.delay_s == match parse_u32_spec(v) {
            Some(d) => d,
            None => st.0.startup.delay_s,
        },
{
    lemma_truthy_means_on(v);
    reveal_strlit("hotkey_icons");
    reveal_strlit("icons");
    reveal_strlit("hotkey_taskbar");
    reveal_strlit("taskbar");
    reveal_strlit("hotkey_windows");
    reveal_strlit("windows");
    reveal_strlit("startup_enabled");
    reveal_strlit("run_on_startup");
    reveal_strlit("startup_delay");
    reveal_strlit("startup_delay_s");
    reveal_strlit("updater_enabled");
    reveal_strlit("auto_update");
    reveal_strlit("discord_enabled");
    reveal_strlit("discord");
    reveal_strlit("icons_hidden");
    reveal_strlit("modifiers");
    reveal_strlit("key");
    reveal_strlit("run_at_startup");
    reveal_strlit("delay");
    reveal_strlit("startup");
    reveal_strlit("hotkey");
    lemma_ini_keys_distinct();
}

proof fn lemma_ini_keys_distinct()
    ensures
        "modifiers"@ != "key"@,
        "modifiers"@ != "run_at_startup"@,
        "modifiers"@ != "delay"@,
        "modifiers"@ != "hotkey_icons"@,
        "modifiers"@ != "icons"@,
        "modifiers"@ != "hotkey_taskbar"@,
        "modifiers"@ != "taskbar"@,
        "modifiers"@ != "hotkey_windows"@,
        "modifiers"@ != "windows"@,
        "modifiers"@ != "startup_enabled"@,
        "modifiers"@ != "run_on_startup"@,
        "modifiers"@ != "startup_delay"@,
        "modifiers"@ != "startup_delay_s"@,
        "modifiers"@ != "updater_enabled"@,
        "modifiers"@ != "auto_update"@,
        "modifiers"@ != "discord_enabled"@,
        "modifiers"@ != "discord"@,
        "modifiers"@ != "icons_hidden"@,
        "modifiers"@ != "startup"@,
        "modifiers"@ != "hotkey"@,
        "key"@ != "run_at_startup"@,
        "key"@ != "delay"@,
        "key"@ != "hotkey_icons"@,
        "key"@ != "icons"@,
        "key"@ != "hotkey_taskbar"@,
        "key"@ != "taskbar"@,
        "key"@ != "hotkey_windows"@,
        "key"@ != "windows"@,
        "key"@ != "startup_enabled"@,
        "key"@ != "run_on_startup"@,
        "key"@ != "startup_delay"@,
        "key"@ != "startup_delay_s"@,
        "key"@ != "updater_enabled"@,
        "key"@ != "auto_update"@,
        "key"@ != "discord_enabled"@,
        "key"@ != "discord"@,
        "key"@ != "icons_hidden"@,
        "key"@ != "startup"@,
        "key"@ != "hotkey"@,
        "run_at_startup"@ != "delay"@,
        "run_at_startup"@ != "hotkey_icons"@,
        "run_at_startup"@ != "icons"@,
        "run_at_startup"@ != "hotkey_taskbar"@,
        "run_at_startup"@ != "taskbar"@,
        "run_at_startup"@ != "hotkey_windows"@,
        "run_at_startup"@ != "windows"@,
        "run_at_startup"@ != "startup_enabled"@,
        "run_at_startup"@ != "run_on_startup"@,
        "run_at_startup"@ != "startup_delay"@,
        "run_at_startup"@ != "startup_delay_s"@,
        "run_at_startup"@ != "updater_enabled"@,
        "run_at_startup"@ != "auto_update"@,
        "run_at_startup"@ != "discord_enabled"@,
        "run_at_startup"@ != "discord"@,
        "run_at_startup"@ != "icons_hidden"@,
        "run_at_startup"@ != "startup"@,
        "run_at_startup"@ != "hotkey"@,
        "delay"@ != "hotkey_icons"@,
        "delay"@ != "icons"@,
        "delay"@ != "hotkey_taskbar"@,
        "delay"@ != "taskbar"@,
        "delay"@ != "hotkey_windows"@,
        "delay"@ != "windows"@,
        "delay"@ != "startup_enabled"@,
        "delay"@ != "run_on_startup"@,
        "delay"@ != "startup_delay"@,
        "delay"@ != "startup_delay_s"@,
        "delay"@ != "updater_enabled"@,
        "delay"@ != "auto_update"@,
        "delay"@ != "discord_enabled"@,
        "delay"@ != "discord"@,
        "delay"@ != "icons_hidden"@,
        "delay"@ != "startup"@,
        "delay"@ != "hotkey"@,
        "hotkey_icons"@ != "icons"@,
        "hotkey_icons"@ != "hotkey_taskbar"@,
        "hotkey_icons"@ != "taskbar"@,
        "hotkey_icons"@ != "hotkey_windows"@,
        "hotkey_icons"@ != "windows"@,
        "hotkey_icons"@ != "startup_enabled"@,
        "hotkey_icons"@ != "run_on_startup"@,
        "hotkey_icons"@ != "startup_delay"@,
        "hotkey_icons"@ != "startup_delay_s"@,
        "hotkey_icons"@ != "updater_enabled"@,
        "hotkey_icons"@ != "auto_update"@,
        "hotkey_icons"@ != "discord_enabled"@,
        "hotkey_icons"@ != "discord"@,
        "hotkey_icons"@ != "icons_hidden"@,
        "hotkey_icons"@ != "startup"@,
        "hotkey_icons"@ != "hotkey"@,
        "icons"@ != "hotkey_taskbar"@,
        "icons"@ != "taskbar"@,
        "icons"@ != "hotkey_windows"@,
        "icons"@ != "windows"@,
        "icons"@ != "startup_enabled"@,
        "icons"@ != "run_on_startup"@,
        "icons"@ != "startup_delay"@,
        "icons"@ != "startup_delay_s"@,
        "icons"@ != "updater_enabled"@,
        "icons"@ != "auto_update"@,
        "icons"@ != "discord_enabled"@,
        "icons"@ != "discord"@,
        "icons"@ != "icons_hidden"@,
        "icons"@ != "startup"@,
        "icons"@ != "hotkey"@,
        "hotkey_taskbar"@ != "taskbar"@,
        "hotkey_taskbar"@ != "hotkey_windows"@,
        "hotkey_taskbar"@ != "windows"@,
        "hotkey_taskbar"@ != "startup_enabled"@,
        "hotkey_taskbar"@ != "run_on_startup"@,
        "hotkey_taskbar"@ != "startup_delay"@,
        "hotkey_taskbar"@ != "startup_delay_s"@,
        "hotkey_taskbar"@ != "updater_enabled"@,
        "hotkey_taskbar"@ != "auto_update"@,
        "hotkey_taskbar"@ != "discord_enabled"@,
        "hotkey_taskbar"@ != "discord"@,
        "hotkey_taskbar"@ != "icons_hidden"@,
        "hotkey_taskbar"@ != "startup"@,
        "hotkey_taskbar"@ != "hotkey"@,
        "taskbar"@ != "hotkey_windows"@,
        "taskbar"@ != "windows"@,
        "taskbar"@ != "startup_enabled"@,
        "taskbar"@ != "run_on_startup"@,
        "taskbar"@ != "startup_delay"@,
        "taskbar"@ != "startup_delay_s"@,
        "taskbar"@ != "updater_enabled"@,
        "taskbar"@ != "auto_update"@,
        "taskbar"@ != "discord_enabled"@,
        "taskbar"@ != "discord"@,
        "taskbar"@ != "icons_hidden"@,
        "taskbar"@ != "startup"@,
        "taskbar"@ != "hotkey"@,
        "hotkey_windows"@ != "windows"@,
        "hotkey_windows"@ != "startup_enabled"@,
        "hotkey_windows"@ != "run_on_startup"@,
        "hotkey_windows"@ != "startup_delay"@,
        "hotkey_windows"@ != "startup_delay_s"@,
        "hotkey_windows"@ != "updater_enabled"@,
        "hotkey_windows"@ != "auto_update"@,
        "hotkey_windows"@ != "discord_enabled"@,
        "hotkey_windows"@ != "discord"@,
        "hotkey_windows"@ != "icons_hidden"@,
        "hotkey_windows"@ != "startup"@,
        "hotkey_windows"@ != "hotkey"@,
        "windows"@ != "startup_enabled"@,
        "windows"@ != "run_on_startup"@,
        "windows"@ != "startup_delay"@,
        "windows"@ != "startup_delay_s"@,
        "windows"@ != "updater_enabled"@,
        "windows"@ != "auto_update"@,
        "windows"@ != "discord_enabled"@,
        "windows"@ != "discord"@,
        "windows"@ != "icons_hidden"@,
        "windows"@ != "startup"@,
        "windows"@ != "hotkey"@,
        "startup_enabled"@ != "run_on_startup"@,
        "startup_enabled"@ != "startup_delay"@,
        "startup_enabled"@ != "startup_delay_s"@,
        "startup_enabled"@ != "updater_enabled"@,
        "startup_enabled"@ != "auto_update"@,
        "startup_enabled"@ != "discord_enabled"@,
        "startup_enabled"@ != "discord"@,
        "startup_enabled"@ != "icons_hidden"@,
        "startup_enabled"@ != "startup"@,
        "startup_enabled"@ != "hotkey"@,
        "run_on_startup"@ != "startup_delay"@,
        "run_on_startup"@ != "startup_delay_s"@,
        "run_on_startup"@ != "updater_enabled"@,
        "run_on_startup"@ != "auto_update"@,
        "run_on_startup"@ != "discord_enabled"@,
        "run_on_startup"@ != "discord"@,
        "run_on_startup"@ != "icons_hidden"@,
        "run_on_startup"@ != "startup"@,
        "run_on_startup"@ != "hotkey"@,
        "startup_delay"@ != "startup_delay_s"@,
        "startup_delay"@ != "updater_enabled"@,
        "startup_delay"@ != "auto_update"@,
        "startup_delay"@ != "discord_enabled"@,
        "startup_delay"@ != "discord"@,
        "startup_delay"@ != "icons_hidden"@,
        "startup_delay"@ != "startup"@,
        "startup_delay"@ != "hotkey"@,
        "startup_delay_s"@ != "updater_enabled"@,
        "startup_delay_s"@ != "auto_update"@,
        "startup_delay_s"@ != "discord_enabled"@,
        "startup_delay_s"@ != "discord"@,
        "startup_delay_s"@ != "icons_hidden"@,
        "startup_delay_s"@ != "startup"@,
        "startup_delay_s"@ != "hotkey"@,
        "updater_enabled"@ != "auto_update"@,
        "updater_enabled"@ != "discord_enabled"@,
        "updater_enabled"@ != "discord"@,
        "updater_enabled"@ != "icons_hidden"@,
        "updater_enabled"@ != "startup"@,
        "updater_enabled"@ != "hotkey"@,
        "auto_update"@ != "discord_enabled"@,
        "auto_update"@ != "discord"@,
        "auto_update"@ != "icons_hidden"@,
        "auto_update"@ != "startup"@,
        "auto_update"@ != "hotkey"@,
        "discord_enabled"@ != "discord"@,
        "discord_enabled"@ != "icons_hidden"@,
        "discord_enabled"@ != "startup"@,
        "discord_enabled"@ != "hotkey"@,
        "discord"@ != "icons_hidden"@,
        "discord"@ != "startup"@,
        "discord"@ != "hotkey"@,
        "icons_hidden"@ != "startup"@,
        "icons_hidden"@ != "hotkey"@,
        "startup"@ != "hotkey"@,
{
    reveal_strlit("modifiers");
    reveal_strlit("key");
    reveal_strlit("run_at_startup");
    reveal_strlit("delay");
    reveal_strlit("hotkey_icons");
    reveal_strlit("icons");
    reveal_strlit("hotkey_taskbar");
    reveal_strlit("taskbar");
    reveal_strlit("hotkey_windows");
    reveal_strlit("windows");
    reveal_strlit("startup_enabled");
    reveal_strlit("run_on_startup");
    reveal_strlit("startup_delay");
    reveal_strlit("startup_delay_s");
    reveal_strlit("updater_enabled");
    reveal_strlit("auto_update");
    reveal_strlit("discord_enabled");
    reveal_strlit("discord");
    reveal_strlit("icons_hidden");
    reveal_strlit("startup");
    reveal_strlit("hotkey");
    assert("modifiers"@.len() == 9);
    assert("key"@.len() == 3);
    assert("run_at_startup"@.len() == 14);
    assert("delay"@.len() == 5);
    assert("hotkey_icons"@.len() == 12);
    assert("icons"@.len() == 5);
    assert("hotkey_taskbar"@.len() == 14);
    assert("taskbar"@.len() == 7);
    assert("hotkey_windows"@.len() == 14);
    assert("windows"@.len() == 7);
    assert("startup_enabled"@.len() == 15);
    assert("run_on_startup"@.len() == 14);
    assert("startup_delay"@.len() == 13);
    assert("startup_delay_s"@.len() == 15);
    assert("updater_enabled"@.len() == 15);
    assert("auto_update"@.len() == 11);
    assert("discord_enabled"@.len() == 15);
    assert("discord"@.len() == 7);
    assert("icons_hidden"@.len() == 12);
    assert("startup"@.len() == 7);
    assert("hotkey"@.len() == 6);
    assert("run_at_startup"@[0] != "hotkey_taskbar"@[0]);
    assert("run_at_startup"@[0] != "hotkey_windows"@[0]);
    assert("run_at_startup"@[4] != "run_on_startup"@[4]);
    assert("delay"@[0] != "icons"@[0]);
    assert("hotkey_icons"@[0] != "icons_hidden"@[0]);
    assert("hotkey_taskbar"@[7] != "hotkey_windows"@[7]);
    assert("hotkey_taskbar"@[0] != "run_on_startup"@[0]);
    assert("taskbar"@[0] != "windows"@[0]);
    assert("taskbar"@[0] != "discord"@[0]);
    assert("taskbar"@[0] != "startup"@[0]);
    assert("hotkey_windows"@[0] != "run_on_startup"@[0]);
    assert("windows"@[0] != "discord"@[0]);
    assert("windows"@[0] != "startup"@[0]);
    assert("startup_enabled"@[8] != "startup_delay_s"@[8]);
    assert("startup_enabled"@[0] != "updater_enabled"@[0]);
    assert("startup_enabled"@[0] != "discord_enabled"@[0]);
    assert("startup_delay_s"@[0] != "updater_enabled"@[0]);
    assert("startup_delay_s"@[0] != "discord_enabled"@[0]);
    assert("updater_enabled"@[0] != "discord_enabled"@[0]);
    assert("discord"@[0] != "startup"@[0]);
}

proof fn lemma_last_index_exists(h: Seq<char>, c: char, j: int)
    requires
        0 <= j < h.len(),
        h[j] == c,
    ensures
        exists|k: int| is_last_index(h, c, k),
    decreases h.len(),
{
    if h.last() == c {
        assert(is_last_index(h, c, h.len() - 1));
    } else {
        let d = h.drop_last();
        assert(j != h.len() - 1);
        lemma_last_index_exists(d, c, j);
        let k = choose|k: int| is_last_index(d, c, k);
        assert forall|i: int| k < i < h.len() implies h[i] != c by {
            if i < d.len() {
                assert(d[i] == h[i]);
            }
        }
        assert(is_last_index(h, c, k));
    }
}

proof fn lemma_no_plus_no_last(h: Seq<char>)
    requires
        forall|i: int| 0 <= i < h.len() ==> h[i] != '+',
    ensures
        !exists|k: int| is_last_index(h, '+', k),
{
}

proof fn lemma_plus_last_at(a: Seq<char>, b: Seq<char>)
    requires
        forall|i: int| 0 <= i < b.len() ==> b[i] != '+',
    ensures
        is_last_index(a + seq!['+'] + b, '+', a.len() as int),
{
    let h = a + seq!['+'] + b;
    assert forall|j: int| a.len() < j < h.len() implies h[j] != '+' by {
        assert(h[j] == b[j - a.len() - 1]);
    }
}

/// In a hotkey section, `modifiers = M` and `key = K` together give the
/// hotkey `M+K`, whichever comes first and whatever the hotkey was, for a
/// key without `+`.
pub proof fn lemma_ini_hotkey_parts_combine(h: Seq<char>, m: Seq<char>, k: Seq<char>)
    requires
        forall|i: int| 0 <= i < k.len() ==> k[i] != '+',
    ensures
        with_hotkey_key(with_hotkey_mods(h, m), k) == m + "+"@ + k,
        with_hotkey_mods(with_hotkey_key(h, k), m) == m + "+"@ + k,
{
    reveal_strlit("+");
    assert("+"@ =~= seq!['+']);
    // modifiers first
    let rest = if exists|x: int| is_last_index(h, '+', x) {
        let x = choose|x: int| is_last_index(h, '+', x);
        h.skip(x + 1)
    } else {
        h
    };
    assert forall|i: int| 0 <= i < rest.len() implies rest[i] != '+' by {
        if exists|x: int| is_last_index(h, '+', x) {
            let x = choose|x: int| is_last_index(h, '+', x);
            assert(rest[i] == h[x + 1 + i]);
        } else {
            if rest[i] == '+' {
                lemma_last_index_exists(h, '+', i);
            }
        }
    }
    let h1 = m + seq!['+'] + rest;
    assert(with_hotkey_mods(h, m) == h1);
    lemma_plus_last_at(m, rest);
    let x1 = choose|x: int| is_last_index(h1, '+', x);
    lemma_last_index_unique(h1, '+', x1, m.len() as int);
    assert(h1.take(m.len() + 1int) =~= m + seq!['+']);
    // key first
    if exists|x: int| is_last_index(h, '+', x) {
        let x = choose|x: int| is_last_index(h, '+', x);
        let h2 = h.take(x + 1) + k;
        assert(h.take(x + 1) =~= h.take(x) + seq!['+']);
        assert(h2 =~= h.take(x) + seq!['+'] + k);
        lemma_plus_last_at(h.take(x), k);
        let x2 = choose|y: int| is_last_index(h2, '+', y);
        lemma_last_index_unique(h2, '+', x2, x);
        assert(h2.skip(x + 1) =~= k);
    } else {
        lemma_no_plus_no_last(k);
    }
}

/// The documented hotkey sections: `modifiers = M` and `key = K`, in
/// either order, set the icons (`[hotkey]`), taskbar (`[hotkey_taskbar]`)
/// or windows (`[hotkey_windows]`) hotkey to `M+K`, for a key without `+`.
pub proof fn lemma_ini_hotkey_sections(st: (ConfigView, bool), m: Seq<char>, k: Seq<char>)
    requires
        forall|i: int| 0 <= i < k.len() ==> k[i] != '+',
    ensures
        ini_apply_setting(ini_apply_setting(st, "hotkey"@, "modifiers"@, m), "hotkey"@, "key"@, k).0.hotkeys.icons
            == m + "+"@ + k,
        ini_apply_setting(ini_apply_setting(st, "hotkey"@, "key"@, k), "hotkey"@, "modifiers"@, m).0.hotkeys.icons
            == m + "+"@ + k,
        ini_apply_setting(ini_apply_setting(st, "hotkey_taskbar"@, "modifiers"@, m), "hotkey_taskbar"@, "key"@, k).0.hotkeys.taskbar
            == m + "+"@ + k,
        ini_apply_setting(ini_apply_setting(st, "hotkey_taskbar"@, "key"@, k), "hotkey_taskbar"@, "modifiers"@, m).0.hotkeys.taskbar
            == m + "+"@ + k,
        ini_apply_setting(ini_apply_setting(st, "hotkey_windows"@, "modifiers"@, m), "hotkey_windows"@, "key"@, k).0.hotkeys.windows
            == m + "+"@ + k,
        ini_apply_setting(ini_apply_setting(st, "hotkey_windows"@, "key"@, k), "hotkey_windows"@, "modifiers"@, m).0.hotkeys.windows
            == m + "+"@ + k,
{
    lemma_ini_keys_distinct();
    lemma_ini_hotkey_parts_combine(st.0.hotkeys.icons, m, k);
    lemma_ini_hotkey_parts_combine(st.0.hotkeys.taskbar, m, k);
    lemma_ini_hotkey_parts_combine(st.0.hotkeys.windows, m, k);
}

/// Whether a trimmed legacy line carries no setting: blank or a `#` or `;`
/// comment.
pub open spec fn ini_skipped(t: Seq<char>) -> bool {
    t.len() == 0 || t[0] == '#' || t[0] == ';'
}

/// The name of a `[section]` header (a trimmed line starting with `[`): the
/// text after `[`, without a closing `]`, trimmed and lower-cased.
pub open spec fn ini_section_name(t: Seq<char>) -> Seq<char> {
    let inner = if t.len() >= 2 && t.last() == ']' { t.subrange(1, t.len() - 1) } else { t.skip(1) };
    lowercase(trim(inner))
}

/// What reading a legacy `config.ini` keeps track of: the configuration,
/// whether icons start hidden, and the current section.
pub type IniState = (ConfigView, bool, Seq<char>);

/// The effect of one line of a legacy `config.ini`. A `[section]` header
/// starts that section; a line that is not skipped and holds an `=` sets
/// the key before the first `=` to the trimmed text after it; other lines
/// change nothing.
pub open spec fn ini_apply_line(st: IniState, line: Seq<char>) -> IniState {
    let t = trim(line);
    if t.len() > 0 && t[0] == '[' {
        (st.0, st.1, ini_section_name(t))
    } else if ini_skipped(t) {
        st
    } else if exists|k: int| is_first_index(t, '=', k) {
        let k = choose|k: int| is_first_index(t, '=', k);
        let r = ini_apply_setting((st.0, st.1), st.2, ini_key(t.take(k)), trim(t.skip(k + 1)));
        (r.0, r.1, st.2)
    } else {
        st
    }
}

/// The effect of a run of lines, applied first to last.
pub open spec fn ini_apply_lines(st: IniState, lines: Seq<Seq<char>>) -> IniState
    decreases lines.len(),
{
    if lines.len() == 0 {
        st
    } else {
        ini_apply_line(ini_apply_lines(st, lines.drop_last()), lines.last())
    }
}

/// What a legacy `config.ini` text yields: the default configuration with
/// each recognised setting applied in order, and whether icons were saved as
/// hidden. Reading starts outside any section. Lines are the pieces between
/// newlines; a carriage return before a newline is whitespace and
/// disappears with the trim.
pub open spec fn parse_ini_spec(content: Seq<char>) -> (ConfigView, bool) {
    let r = ini_apply_lines((default_config_view(), false, Seq::empty()), split_on(content, '\n'));
    (r.0, r.1)
}

/// The last position of `c` in `s`, if any.
fn last_index_of(s: &Vec<char>, c: char) -> (r: Option<usize>)
    ensures
        match r {
            Some(k) => is_last_index(s@, c, k as int),
            None => !exists|k: int| is_last_index(s@, c, k),
        },
{
    let mut i: usize = s.len();
    while i > 0
        invariant
            i <= s.len(),
            forall|j: int| i <= j < s.len() ==> s@[j] != c,
        decreases i,
    {
        if s[i - 1] == c {
            return Some(i - 1);
        }
        i = i - 1;
    }
    assert forall|k: int| !is_last_index(s@, c, k) by {}
    None
}

proof fn lemma_last_index_unique(s: Seq<char>, c: char, a: int, b: int)
    requires
        is_last_index(s, c, a),
        is_last_index(s, c, b),
    ensures
        a == b,
{
    if a < b {
        assert(s[b] != c);
    } else if b < a {
        assert(s[a] != c);
    }
}

/// The hotkey `h` with one of its parts replaced, as `ini_hotkey_part`
/// says: `modifiers` replaces what precedes the last `+`, `key` what
/// follows it.
fn set_hotkey_part(h: &String, key: &Vec<char>, value: &Vec<char>) -> (r: String)
    ensures
        r@ == ini_hotkey_part(h@, key@, value@),
{
    let hs = chars_of(h.as_str());
    let is_mods = chars_eq_str(key, "modifiers");
    let mut out: Vec<char> = Vec::new();
    match last_index_of(&hs, '+') {
        Some(k) => {
            proof {
                let kk = choose|kk: int| is_last_index(hs@, '+', kk);
                lemma_last_index_unique(hs@, '+', kk, k as int);
            }
            assert(k < hs.len());
            if is_mods {
                out = value.clone();
                out.push('+');
                let rest = sub_chars(&hs, k + 1, hs.len());
                let mut tail = rest;
                out.append(&mut tail);
                assert(out@ =~= value@ + "+"@ + hs@.skip(k + 1)) by {
                    reveal_strlit("+");
                }
            } else {
                out = sub_chars(&hs, 0, k + 1);
                let mut tail = value.clone();
                out.append(&mut tail);
                assert(out@ =~= hs@.take(k + 1) + value@);
            }
        },
        None => {
            if is_mods {
                out = value.clone();
                out.push('+');
                let mut tail = hs.clone();
                out.append(&mut tail);
                assert(out@ =~= value@ + "+"@ + hs@) by {
                    reveal_strlit("+");
                }
            } else {
                out = value.clone();
            }
        },
    }
    string_from_chars(out.as_slice())
}

/// Sets `key` to `value`, read in `section`, in a configuration read from a
/// legacy `config.ini`, or records whether icons start hidden. `section`
/// and `key` are already trimmed and lower-cased (`key` stripped of its
/// qualifiers); `value` is trimmed.
pub fn apply_ini_setting(
    config: &mut AppConfig,
    icons_hidden: &mut bool,
    section: &Vec<char>,
    key: &Vec<char>,
    value: &Vec<char>,
)
    ensures
        (final(config)@, *final(icons_hidden)) == ini_apply_setting(
            (old(config)@, *old(icons_hidden)),
            section@,
            key@,
            value@,
        ),
{
    let truthy = eq_ignore_ascii_case_chars(value, &chars_of("true")) || chars_eq_str(value, "1");
    let part = chars_eq_str(key, "modifiers") || chars_eq_str(key, "key");
    if chars_eq_str(section, "hotkey") && part {
        config.hotkeys.icons = set_hotkey_part(&config.hotkeys.icons, key, value);
    } else if chars_eq_str(section, "hotkey_taskbar") && part {
        config.hotkeys.taskbar = set_hotkey_part(&config.hotkeys.taskbar, key, value);
    } else if chars_eq_str(section, "hotkey_windows") && part {
        config.hotkeys.windows = set_hotkey_part(&config.hotkeys.windows, key, value);
    } else if chars_eq_str(section, "startup") && chars_eq_str(key, "run_at_startup") {
        config.startup.enabled = truthy;
    } else if chars_eq_str(section, "startup") && chars_eq_str(key, "delay") {
        if let Some(d) = parse_u32(value) {
            config.startup.delay_s = d;
        }
    } else if chars_eq_str(key, "hotkey_icons") || chars_eq_str(key, "icons") {
        config.hotkeys.icons = string_from_chars(value.as_slice());
    } else if chars_eq_str(key, "hotkey_taskbar") || chars_eq_str(key, "taskbar") {
        config.hotkeys.taskbar = string_from_chars(value.as_slice());
    } else if chars_eq_str(key, "hotkey_windows") || chars_eq_str(key, "windows") {
        config.hotkeys.windows = string_from_chars(value.as_slice());
    } else if chars_eq_str(key, "startup_enabled") || chars_eq_str(key, "run_on_startup") {
        config.startup.enabled = truthy;
    } else if chars_eq_str(key, "startup_delay") || chars_eq_str(key, "startup_delay_s") {
        if let Some(d) = parse_u32(value) {
            config.startup.delay_s = d;
        }
    } else if chars_eq_str(key, "updater_enabled") || chars_eq_str(key, "auto_update") {
        config.updater.enabled = truthy;
    } else if chars_eq_str(key, "discord_enabled") || chars_eq_str(key, "discord") {
        config.discord.enabled = truthy;
    } else if chars_eq_str(key, "icons_hidden") {
        // the old version could save the icons state; carry it forward
        *icons_hidden = truthy;
    }
}

/// The first position of `c` in `s`, if any.
fn first_index_of(s: &Vec<char>, c: char) -> (r: Option<usize>)
    ensures
        match r {
            Some(k) => is_first_index(s@, c, k as int),
            None => !exists|k: int| is_first_index(s@, c, k),
        },
{
    let mut i: usize = 0;
    while i < s.len()
        invariant
            i <= s.len(),
            forall|j: int| 0 <= j < i ==> s@[j] != c,
        decreases s.len() - i,
    {
        if s[i] == c {
            return Some(i);
        }
        i = i + 1;
    }
    assert forall|k: int| !is_first_index(s@, c, k) by {}
    None
}

proof fn lemma_first_index_unique(s: Seq<char>, c: char, a: int, b: int)
    requires
        is_first_index(s, c, a),
        is_first_index(s, c, b),
    ensures
        a == b,
{
    if a < b {
        assert(s[a] != c);
    } else if b < a {
        assert(s[b] != c);
    }
}

/// The name of a `[section]` header line, already trimmed.
fn section_name(t: &Vec<char>) -> (r: Vec<char>)
    requires
        t@.len() > 0,
    ensures
        r@ == ini_section_name(t@),
{
    let n = t.len();
    let inner = if n >= 2 && t[n - 1] == ']' {
        sub_chars(t, 1, n - 1)
    } else {
        sub_chars(t, 1, n)
    };
    let trimmed = trim_chars(&inner);
    let lowered = to_lowercase(string_from_chars(trimmed.as_slice()).as_str());
    chars_of(lowered.as_str())
}

/// Applies one line of a legacy `config.ini`.
fn apply_ini_line(
    config: &mut AppConfig,
    icons_hidden: &mut bool,
    section: &mut Vec<char>,
    line: &Vec<char>,
)
    ensures
        (final(config)@, *final(icons_hidden), final(section)@) == ini_apply_line(
            (old(config)@, *old(icons_hidden), old(section)@),
            line@,
        ),
{
    let t = trim_chars(line);
    if t.len() > 0 && t[0] == '[' {
        *section = section_name(&t);
        return;
    }
    if t.len() == 0 || t[0] == '#' || t[0] == ';' {
        return;
    }
    match first_index_of(&t, '=') {
        None => {},
        Some(k) => {
            proof {
                let kk = choose|kk: int| is_first_index(t@, '=', kk);
                lemma_first_index_unique(t@, '=', kk, k as int);
            }
            let raw = sub_chars(&t, 0, k);
            let raw_t = trim_chars(&raw);
            let lowered = to_lowercase(string_from_chars(raw_t.as_slice()).as_str());
            let lowered_chars = chars_of(lowered.as_str());
            let key1 = strip_all_prefix_chars(&lowered_chars, &chars_of("settings."));
            let key = strip_all_prefix_chars(&key1, &chars_of("hotkeys."));
            let rest = sub_chars(&t, k + 1, t.len());
            let value = trim_chars(&rest);
            assert(t@.take(k as int) == raw@);
            assert(t@.skip(k + 1) == rest@);
            apply_ini_setting(config, icons_hidden, section, &key, &value);
        },
    }
}

/// Reads the text of the old `config.ini`: the default configuration with
/// each recognised setting applied, and whether icons were saved as hidden.
/// Comments (`#`, `;`), blank lines and unknown keys are ignored; keys are
/// matched case-insensitively, with or without a `settings.` or `hotkeys.`
/// qualifier; `[section]` headers select the meaning of `modifiers`, `key`,
/// `run_at_startup` and `delay`.
pub fn parse_ini(content: &str) -> (r: (AppConfig, bool))
    ensures
        (r.0@, r.1) == parse_ini_spec(content@),
{
    let mut config = AppConfig::default();
    let mut icons_hidden_on_start = false;
    let mut section: Vec<char> = Vec::new();
    let chars = chars_of(content);
    let lines = split_chars(&chars, '\n');
    let ghost all = split_on(content@, '\n');
    let ghost init: IniState = (default_config_view(), false, Seq::<char>::empty());
    assert(section@ =~= Seq::<char>::empty());
    let mut i: usize = 0;
    while i < lines.len()
        invariant
            i <= lines.len(),
            lines@.len() == all.len(),
            forall|j: int| 0 <= j < lines@.len() ==> #[trigger] lines@[j]@ == all[j],
            (config@, icons_hidden_on_start, section@) == ini_apply_lines(init, all.take(i as int)),
        decreases lines.len() - i,
    {
        apply_ini_line(&mut config, &mut icons_hidden_on_start, &mut section, &lines[i]);
        assert(all.take(i + 1).drop_last() =~= all.take(i as int));
        i = i + 1;
    }
    assert(all.take(lines.len() as int) =~= all);
    (config, icons_hidden_on_start)
}

/// The profile created when the legacy config had icons starting hidden.
pub open spec fn launch_hidden_profile_view() -> ProfileView {
    ProfileView {
        name: "Launch Hidden"@,
        hotkey: Seq::<char>::empty(),
        icons: true,
        taskbar: false,
        windows: false,
    }
}

/// The configuration migrated from a legacy `config.ini` text: what
/// `parse_ini_spec` reads, plus, when icons were saved as hidden, a "Launch
/// Hidden" profile that hides only the icons, made the launch profile.
pub open spec fn migrated_config_spec(content: Seq<char>) -> ConfigView {
    let (c, hidden) = parse_ini_spec(content);
    if hidden {
        ConfigView {
            profiles: c.profiles.push(launch_hidden_profile_view()),
            defaults: DefaultsView { profile: "Launch Hidden"@ },
            ..c
        }
    } else {
        c
    }
}

/// `"true"` or `"false"`, as a `bool` is displayed.
pub open spec fn bool_text(b: bool) -> Seq<char> {
    if b {
        "true"@
    } else {
        "false"@
    }
}

/// The lines of the migration log, before any note about the old launcher.
pub open spec fn migration_log_spec(c: ConfigView, launch_hidden: bool) -> Seq<Seq<char>> {
    let base = seq![
        "Migration from config.ini"@,
        "  icons hotkey: "@ + c.hotkeys.icons,
        "  taskbar hotkey: "@ + c.hotkeys.taskbar,
        "  windows hotkey: "@ + c.hotkeys.windows,
        "  startup: "@ + bool_text(c.startup.enabled),
        "  startup delay: "@ + decimal(c.startup.delay_s as nat) + "s"@,
    ];
    if launch_hidden {
        base.push("  created 'Launch Hidden' profile (icons_hidden was true)"@)
    } else {
        base
    }
}

/// Migrates the text of a legacy `config.ini` into a configuration, and
/// says whether a "Launch Hidden" profile was created for it.
pub fn migrated_config(content: &str) -> (r: (AppConfig, bool))
    ensures
        r.0@ == migrated_config_spec(content@),
        r.1 == parse_ini_spec(content@).1,
{
    let (mut config, icons_hidden_on_start) = parse_ini(content);
    if icons_hidden_on_start {
        let ghost old_profiles = config.profiles@;
        config.profiles.push(
            ProfileConfig {
                name: String::from_str("Launch Hidden"),
                hotkey: String::new(),
                icons: true,
                taskbar: false,
                windows: false,
            },
        );
        config.defaults.profile = String::from_str("Launch Hidden");
        assert(profiles_view(config.profiles@) =~= profiles_view(old_profiles).push(
            launch_hidden_profile_view(),
        ));
    }
    (config, icons_hidden_on_start)
}

fn bool_string(b: bool) -> (r: String)
    ensures
        r@ == bool_text(b),
{
    if b {
        String::from_str("true")
    } else {
        String::from_str("false")
    }
}

fn labelled(label: &str, value: &str) -> (r: String)
    ensures
        r@ == label@ + value@,
{
    let mut s = String::from_str(label);
    s.append(value);
    s
}

/// The lines that the migration writes to its log: the hotkeys and startup
/// settings it carried over, and the "Launch Hidden" profile if it made one.
pub fn migration_log(config: &AppConfig, launch_hidden: bool) -> (r: Vec<String>)
    ensures
        strings_view(r@) == migration_log_spec(config@, launch_hidden),
{
    let mut lines: Vec<String> = Vec::new();
    lines.push(String::from_str("Migration from config.ini"));
    lines.push(labelled("  icons hotkey: ", config.hotkeys.icons.as_str()));
    lines.push(labelled("  taskbar hotkey: ", config.hotkeys.taskbar.as_str()));
    lines.push(labelled("  windows hotkey: ", config.hotkeys.windows.as_str()));
    let enabled = bool_string(config.startup.enabled);
    lines.push(labelled("  startup: ", enabled.as_str()));
    let delay = u64_to_decimal(config.startup.delay_s as u64);
    let mut d = labelled("  startup delay: ", delay.as_str());
    d.append("s");
    lines.push(d);
    if launch_hidden {
        lines.push(String::from_str("  created 'Launch Hidden' profile (icons_hidden was true)"));
    }
    assert(strings_view(lines@) =~= migration_log_spec(config@, launch_hidden));
    lines
}

} // verus!
