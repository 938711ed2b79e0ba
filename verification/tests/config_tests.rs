use hide_desktop_apps::config::{
    default_profiles, migrated_config, migration_log, parse_ini, AppConfig, HotkeysConfig,
    ProfileConfig, StartupConfig, UpdaterConfig, WindowFilterConfig,
};

#[test]
fn parse_ini_reads_hotkeys_and_flags() {
    let ini = "\
[Settings]
hotkey_icons = ctrl+alt+x
run_on_startup = false
startup_delay = 12
auto_update = 0
[Hotkeys]
taskbar = ctrl+alt+b
";
    let (cfg, icons_hidden) = parse_ini(ini);
    assert_eq!(cfg.hotkeys.icons, "ctrl+alt+x");
    assert_eq!(cfg.hotkeys.taskbar, "ctrl+alt+b");
    assert!(!cfg.startup.enabled);
    assert_eq!(cfg.startup.delay_s, 12);
    assert!(!cfg.updater.enabled);
    assert!(!icons_hidden);
}

#[test]
fn parse_ini_icons_hidden_sets_flag() {
    let (_, icons_hidden) = parse_ini("icons_hidden = true\n");
    assert!(icons_hidden);
}

#[test]
fn parse_ini_ignores_comments_and_blanks() {
    let (cfg, _) = parse_ini("# comment\n; comment\n\n   \n");
    // untouched -> defaults
    assert_eq!(cfg.hotkeys.icons, HotkeysConfig::default().icons);
}

#[test]
fn default_config_values() {
    let cfg = AppConfig::default();
    assert_eq!(cfg.hotkeys.icons, "ctrl+alt+h");
    assert_eq!(cfg.hotkeys.taskbar, "ctrl+alt+t");
    assert_eq!(cfg.hotkeys.windows, "ctrl+alt+w");
    assert!(cfg.startup.enabled);
    assert_eq!(cfg.startup.delay_s, 30);
    assert_eq!(cfg.defaults.profile, "");
    assert_eq!(cfg.updater.channel, "stable");
    assert_eq!(cfg.updater.check_interval_h, 24);
    assert!(cfg.notifications.enabled && !cfg.notifications.on_profile_switch);
    assert!(cfg.discord.enabled);
    assert_eq!(cfg.window_filter.exclude_processes, vec!["1password", "taskmgr", "winlogon"]);
    assert_eq!(cfg.profiles.len(), 3);
    let s = StartupConfig::default();
    assert_eq!((s.enabled, s.delay_s), (true, 30));
    let u = UpdaterConfig::default();
    assert!(u.enabled && u.last_checked.is_empty());
    assert_eq!(WindowFilterConfig::default().exclude_processes.len(), 3);
}

#[test]
fn default_profiles_are_focus_presentation_clean() {
    let p = default_profiles();
    let names: Vec<&str> = p.iter().map(|x| x.name.as_str()).collect();
    assert_eq!(names, vec!["Focus", "Presentation", "Clean Desktop"]);
    assert_eq!(p[0].hotkey, "ctrl+alt+f");
    assert!(p[0].icons && p[0].taskbar && !p[0].windows);
    assert!(p[1].icons && p[1].taskbar && p[1].windows);
    assert_eq!(p[2].hotkey, "");
    assert!(p[2].icons && !p[2].taskbar && !p[2].windows);
    let d = ProfileConfig::default();
    assert_eq!(d.name, "Default");
    assert!(d.icons && !d.taskbar && !d.windows);
}

#[test]
fn parse_ini_accepts_all_key_spellings() {
    let ini = "Settings.Hotkey_Windows = ctrl+shift+q\r\nICONS=alt+1\nstartup_enabled = TRUE\nstartup_delay_s=+7\ndiscord = 1\nupdater_enabled = yes\n";
    let (cfg, hidden) = parse_ini(ini);
    assert_eq!(cfg.hotkeys.windows, "ctrl+shift+q");
    assert_eq!(cfg.hotkeys.icons, "alt+1");
    assert!(cfg.startup.enabled);
    assert_eq!(cfg.startup.delay_s, 7);
    assert!(cfg.discord.enabled);
    assert!(!cfg.updater.enabled);
    assert!(!hidden);
}

#[test]
fn parse_ini_keeps_delay_when_not_a_number() {
    let (cfg, _) = parse_ini("startup_delay = -5\nstartup_delay = 99999999999\nstartup_delay = abc\n");
    assert_eq!(cfg.startup.delay_s, 30);
    let (cfg, _) = parse_ini("startup_delay = 4294967295\n");
    assert_eq!(cfg.startup.delay_s, 4294967295);
}

#[test]
fn parse_ini_value_after_first_equals() {
    let (cfg, _) = parse_ini("hotkeys.icons = a=b\nno equals here\nunknown = 3\n");
    assert_eq!(cfg.hotkeys.icons, "a=b");
}

#[test]
fn migration_adds_launch_hidden_profile() {
    let (cfg, made) = migrated_config("icons_hidden = 1\n");
    assert!(made);
    assert_eq!(cfg.profiles.len(), 4);
    assert_eq!(cfg.profiles[3].name, "Launch Hidden");
    assert!(cfg.profiles[3].icons && !cfg.profiles[3].taskbar && !cfg.profiles[3].windows);
    assert_eq!(cfg.defaults.profile, "Launch Hidden");
    let (cfg, made) = migrated_config("icons_hidden = no\n");
    assert!(!made);
    assert_eq!(cfg.profiles.len(), 3);
    assert_eq!(cfg.defaults.profile, "");
}

#[test]
fn migration_log_lists_settings() {
    let (cfg, made) = migrated_config("startup_delay = 5\nicons_hidden = true\n");
    let lines = migration_log(&cfg, made);
    assert_eq!(
        lines,
        vec![
            "Migration from config.ini",
            "  icons hotkey: ctrl+alt+h",
            "  taskbar hotkey: ctrl+alt+t",
            "  windows hotkey: ctrl+alt+w",
            "  startup: true",
            "  startup delay: 5s",
            "  created 'Launch Hidden' profile (icons_hidden was true)",
        ]
    );
}

#[test]
fn parse_ini_reads_documented_sections() {
    let content = "[hotkey]\nmodifiers = ctrl+alt\nkey = x\n[hotkey_taskbar]\nkey = b\nmodifiers = shift\n[hotkey_windows]\nmodifiers = ctrl+alt\nkey = w\n[startup]\nrun_at_startup = false\ndelay = 10\n[defaults]\nicons_hidden = true\n";
    let (cfg, hidden) = parse_ini(content);
    assert_eq!(cfg.hotkeys.icons, "ctrl+alt+x");
    assert_eq!(cfg.hotkeys.taskbar, "shift+b");
    assert_eq!(cfg.hotkeys.windows, "ctrl+alt+w");
    assert!(!cfg.startup.enabled);
    assert_eq!(cfg.startup.delay_s, 10);
    assert!(hidden);
}

#[test]
fn parse_ini_section_keys_only_in_their_section() {
    // outside [startup], `delay` means nothing; outside hotkey sections `key` neither
    let (cfg, _) = parse_ini("delay = 5\nkey = q\n[ Startup ]\nDelay = 7\n[other]\nrun_at_startup = false\n");
    assert_eq!(cfg.startup.delay_s, 7);
    assert!(cfg.startup.enabled);
    assert_eq!(cfg.hotkeys.icons, "ctrl+alt+h");
}
