use hide_desktop_apps::config::{AppConfig, NotificationsConfig, StartupConfig};
use hide_desktop_apps::notifications::{
    escape_xml, notify_hotkey_failed, notify_profile_switch, notify_up_to_date,
    notify_update_available, toast_xml,
};
use hide_desktop_apps::startup::{register_script, sync_startup, unregister_script, StartupStep};
use hide_desktop_apps::state::AppState;
use hide_desktop_apps::ui::{
    auto_check_text, debug_info, default_profile_choices, default_profile_label,
    default_profile_value, field_label, hotkeys_distinct, presence_preview, sanitize_key_input,
    status_chip_text, status_kind, theme_style, themes, update_status_for, HotkeyField, SettingsApp,
    StatusKind, Tab,
};
use hide_desktop_apps::updater::{
    check_update, find_sha_asset, first_word_of, pick_newest_release, scans_all_releases,
    select_exe_entry, select_zip_asset, strip_tag, tag_less, update_outcome, verify_digest,
    verify_download, UpdateError,
};
use hide_desktop_apps::win_ops::{
    process_stem_of,
    is_fullscreen, is_shell_class, restore_show_command, should_hide_window, Rect, ShowCommand,
    WindowInfo,
};

fn strings(v: &[&str]) -> Vec<String> {
    v.iter().map(|s| s.to_string()).collect()
}

#[test]
fn xml_escaping() {
    assert_eq!(escape_xml("a&b<c>\"d'"), "a&amp;b&lt;c&gt;&quot;d&apos;");
    assert_eq!(escape_xml("&amp;"), "&amp;amp;");
    assert_eq!(escape_xml("&lt;"), "&amp;lt;");
    assert_eq!(escape_xml("plain text 123"), "plain text 123");
    assert_eq!(
        toast_xml("T<", "B"),
        "<toast><visual><binding template=\"ToastGeneric\"><text>T&lt;</text><text>B</text></binding></visual></toast>"
    );
}

#[test]
fn notifications_follow_settings() {
    let on = NotificationsConfig { enabled: true, on_update: true, on_hotkey_fail: true, on_profile_switch: true };
    let t = notify_update_available("1.2.3", &on).unwrap();
    assert_eq!(t.title, "HideDesktopApps Update");
    assert_eq!(t.body, "Version 1.2.3 is available. Open Settings to update.");
    assert_eq!(notify_up_to_date(&on, "0.4.0").unwrap().body, "You are up to date. (v0.4.0)");
    assert_eq!(notify_hotkey_failed("ctrl+x", &on).unwrap().body, "Failed to register hotkey: ctrl+x");
    assert_eq!(notify_profile_switch("Focus", &on).unwrap().body, "Profile 'Focus' activated.");
    let def = NotificationsConfig::default();
    assert!(notify_profile_switch("Focus", &def).is_none());
    let off = NotificationsConfig { enabled: false, ..on };
    assert!(notify_update_available("1", &off).is_none());
    assert!(notify_hotkey_failed("x", &off).is_none());
}

#[test]
fn startup_scripts_and_steps() {
    assert_eq!(
        register_script("C:\\Bob's\\app.exe", 30),
        "$t = New-ScheduledTaskTrigger -AtLogOn; $t.Delay = 'PT30S'; $a = New-ScheduledTaskAction -Execute '\"C:\\Bob''s\\app.exe\"'; $s = New-ScheduledTaskSettingsSet -ExecutionTimeLimit 0 -AllowStartIfOnBatteries $true; Register-ScheduledTask -TaskName 'HideDesktopApps' -Trigger $t -Action $a -Settings $s -Force | Out-Null"
    );
    assert_eq!(
        unregister_script(),
        "Unregister-ScheduledTask -TaskName 'HideDesktopApps' -Confirm:$false -ErrorAction SilentlyContinue"
    );
    let on = StartupConfig { enabled: true, delay_s: 12 };
    assert_eq!(sync_startup(&on, None), StartupStep::Register(12));
    let off = StartupConfig { enabled: false, delay_s: 12 };
    assert_eq!(sync_startup(&off, None), StartupStep::QueryRegistration);
    assert_eq!(sync_startup(&off, Some(true)), StartupStep::Unregister);
    assert_eq!(sync_startup(&off, Some(false)), StartupStep::Nothing);
}

#[test]
fn release_versions() {
    assert!(scans_all_releases("beta"));
    assert!(!scans_all_releases("stable") && !scans_all_releases("Beta"));
    assert_eq!(strip_tag("vv1.2.0"), "1.2.0");
    assert!(tag_less("1.0.0", "1.0.1"));
    assert!(tag_less("1.0.0-beta", "1.0.0"));
    assert!(tag_less("junk", "0.0.1"));
    assert!(!tag_less("0.0.1", "junk"));
    assert!(!tag_less("junk", "junk"));
    let tags = strings(&["v0.2.0", "v0.3.0-beta.1", "nightly", "v0.2.9", "v0.3.0-beta.1"]);
    assert_eq!(pick_newest_release(&tags), Some(4));
    assert_eq!(pick_newest_release(&vec![]), None);
    assert_eq!(check_update("v0.5.0", "0.4.0").unwrap(), Some("0.5.0".to_string()));
    assert_eq!(check_update("v0.4.0", "0.4.0").unwrap(), None);
    assert!(matches!(check_update("vnext", "0.4.0"), Err(UpdateError::BadRemoteVersion(v)) if v == "next"));
    assert!(matches!(check_update("v1.0.0", "dev"), Err(UpdateError::BadCurrentVersion)));
}

#[test]
fn release_assets() {
    let names = strings(&[
        "notes.txt",
        "HideDesktopApps-0.5.0-portable.zip",
        "HideDesktopApps-0.5.0-x86-portable.zip",
        "HideDesktopApps-0.5.0-x64-portable.zip",
        "HideDesktopApps-0.5.0-x64-portable.zip.sha256",
    ]);
    assert_eq!(select_zip_asset(&names, "x64"), Some(3));
    assert_eq!(select_zip_asset(&names, "arm64"), Some(1));
    assert_eq!(select_zip_asset(&strings(&["a.zip"]), "x64"), None);
    assert_eq!(find_sha_asset(&names, "HideDesktopApps-0.5.0-x64-portable.zip"), Some(4));
    assert_eq!(find_sha_asset(&names, "HideDesktopApps-0.5.0-portable.zip"), None);
    let entries = strings(&["README.md", "x86\\HideDesktopApps.exe", "pkg/x64/HideDesktopApps.exe"]);
    assert_eq!(select_exe_entry(&entries, "x64"), Some(2));
    assert_eq!(select_exe_entry(&entries, "x86"), Some(1));
    assert_eq!(select_exe_entry(&entries, "arm64"), Some(1));
    assert_eq!(select_exe_entry(&strings(&["a.txt"]), "x64"), None);
}

#[test]
fn download_hash_check() {
    assert_eq!(first_word_of("  abc def\n"), "abc");
    assert_eq!(first_word_of("   "), "");
    let digest = "ba7816bf8f01cfea414140de5dae2223b00361a396177a9cb410ff61f20015ad";
    assert!(verify_download(b"abc", &format!("{}  file.zip\n", digest.to_uppercase())).is_ok());
    match verify_download(b"abd", digest) {
        Err(UpdateError::ShaMismatch(e, a)) => {
            assert_eq!(e, digest);
            assert_ne!(a, digest);
            assert_eq!(a.len(), 64);
        }
        other => panic!("{:?}", other),
    }
    let bytes = [0x0fu8, 0xa0, 0xff];
    assert!(verify_digest(&bytes, "0FA0FF").is_ok());
    match verify_digest(&bytes, "0fa0fe x") {
        Err(UpdateError::ShaMismatch(e, a)) => {
            assert_eq!(e, "0fa0fe");
            assert_eq!(a, "0fa0ff");
        }
        other => panic!("{:?}", other),
    }
}

#[test]
fn update_outcomes() {
    assert!(matches!(update_outcome("2.0.0".into(), true, true, true), Ok(Some(v)) if v == "2.0.0"));
    assert!(matches!(update_outcome("1.0.0".into(), true, true, false), Ok(None)));
    assert!(matches!(update_outcome("x".into(), false, false, false), Err(UpdateError::BadRemoteVersion(v)) if v == "x"));
    assert!(matches!(update_outcome("1.0.0".into(), true, false, false), Err(UpdateError::BadCurrentVersion)));
}

#[test]
fn window_filter() {
    let info = |class: &str, ex_style: u32, pid: u32, proc_name: &str| WindowInfo {
        visible: true,
        title_len: 5,
        class: class.to_string(),
        ex_style,
        pid,
        process_name: proc_name.to_string(),
        has_owner: false,
    };
    let excluded = strings(&["1password", "taskmgr"]);
    assert!(should_hide_window(&info("Notepad", 0, 10, "notepad.exe"), 1, &excluded));
    assert!(!should_hide_window(&info("Progman", 0, 10, "explorer.exe"), 1, &excluded));
    assert!(!should_hide_window(&info("Notepad", 0x80, 10, "notepad.exe"), 1, &excluded));
    assert!(!should_hide_window(&info("Notepad", 0, 1, "notepad.exe"), 1, &excluded));
    assert!(!should_hide_window(&info("Notepad", 0, 10, "TaskMgr"), 1, &excluded));
    assert!(!should_hide_window(&info("TaskManagerWindow", 0, 10, "Taskmgr.exe"), 1, &excluded));
    assert!(!should_hide_window(&info("X", 0, 10, "1PASSWORD.EXE"), 1, &excluded));
    assert!(should_hide_window(&info("X", 0, 10, "taskmgr.exe.bak"), 1, &excluded));
    assert_eq!(process_stem_of(&"Taskmgr.exe".chars().collect()), "Taskmgr".chars().collect::<Vec<_>>());
    assert_eq!(process_stem_of(&"exe".chars().collect()), "exe".chars().collect::<Vec<_>>());
    let mut owned = info("Notepad", 0, 10, "notepad.exe");
    owned.has_owner = true;
    assert!(!should_hide_window(&owned, 1, &excluded));
    let mut untitled = info("Notepad", 0, 10, "notepad.exe");
    untitled.title_len = 0;
    assert!(!should_hide_window(&untitled, 1, &excluded));
    assert!(is_shell_class("WorkerW") && !is_shell_class("workerw"));
    assert_eq!(restore_show_command(3), ShowCommand::Maximized);
    assert_eq!(restore_show_command(2), ShowCommand::Minimized);
    assert_eq!(restore_show_command(0), ShowCommand::Normal);
    let m = Rect { left: 0, top: 0, right: 1920, bottom: 1080 };
    assert!(is_fullscreen("Game", Rect { left: -1, top: 0, right: 1920, bottom: 1081 }, m));
    assert!(!is_fullscreen("Game", Rect { left: 0, top: 0, right: 1919, bottom: 1080 }, m));
    assert!(!is_fullscreen("Progman", m, m));
}

#[test]
fn settings_window_model() {
    let tabs = Tab::all();
    assert_eq!(tabs.len(), 8);
    assert_eq!(tabs[0].label(), "Hotkeys");
    assert_eq!(tabs[7].label(), "About");
    assert_eq!(field_label(HotkeyField::Taskbar), "Toggle Taskbar");
    assert_eq!(field_label(HotkeyField::Profile(2)), "Hotkey");
    let mut app = SettingsApp::new(AppConfig::default(), true);
    assert_eq!(app.current_tab, Tab::Hotkeys);
    assert!(!app.take_save_request());
    app.apply_hotkey_edits("ctrl+alt+h".into(), "ctrl+alt+t".into(), "ctrl+alt+w".into());
    assert!(!app.dirty);
    app.apply_hotkey_edits("ctrl+alt+h".into(), "ctrl+alt+h".into(), "ctrl+alt+w".into());
    assert!(app.dirty);
    assert!(!hotkeys_distinct(&app.config.hotkeys));
    assert!(!app.take_save_request());
    assert!(!app.dirty);
    app.apply_hotkey_edits("ctrl+alt+h".into(), "ctrl+alt+j".into(), "ctrl+alt+w".into());
    assert!(app.take_save_request());
    app.toggle_recording(HotkeyField::Icons);
    assert_eq!(app.recording_hotkey, Some(HotkeyField::Icons));
    app.toggle_recording(HotkeyField::Icons);
    assert_eq!(app.recording_hotkey, None);
    app.add_profile();
    assert_eq!(app.config.profiles.len(), 4);
    assert_eq!(app.config.profiles[3].name, "Default");
    app.remove_profile(0);
    assert_eq!(app.config.profiles[0].name, "Presentation");
    assert_eq!(
        default_profile_choices(&app.config.profiles),
        strings(&["(none)", "Presentation", "Clean Desktop", "Default"])
    );
    assert_eq!(default_profile_label(&app.config), "(none)");
    assert_eq!(default_profile_value("(none)"), "");
    assert_eq!(default_profile_value("Focus"), "Focus");
}

#[test]
fn settings_texts() {
    assert_eq!(status_chip_text("Icons", true), "Icons: hidden");
    assert_eq!(status_chip_text("Taskbar", false), "Taskbar: shown");
    let (s, c) = update_status_for(Ok(Some("1.0.0".into())));
    assert_eq!(s, "Update available: v1.0.0");
    assert!(c.is_some());
    assert_eq!(status_kind(&s), StatusKind::Notice);
    let (s, c) = update_status_for(Err("boom".into()));
    assert_eq!(s, "Check failed: boom");
    assert!(c.is_none());
    assert_eq!(status_kind(&s), StatusKind::Failure);
    assert_eq!(status_kind("You are up to date!"), StatusKind::Fine);
    assert_eq!(auto_check_text(1), "Auto-checks every 1 hour.");
    assert_eq!(auto_check_text(24), "Auto-checks every 24 hours.");
    assert_eq!(
        debug_info("0.4.0", "x64", "2026-01-01"),
        "HideDesktopApps v0.4.0 (x64) built 2026-01-01\nRepo: https://github.com/Londopy/HideDesktopApps"
    );
    let mut st = AppState::default();
    let (d, s) = presence_preview(&st);
    assert_eq!(d, "(nothing hidden \u{2014} presence is cleared)");
    assert_eq!(s, "Custom setup");
    st.windows_hidden = true;
    st.active_profile = Some("P".into());
    assert_eq!(presence_preview(&st), ("Hiding app windows".to_string(), "Profile: P".to_string()));
    assert_eq!(sanitize_key_input("a1B-z"), "ABZ");
    assert!(theme_style("Light").light);
    assert!(!theme_style("Dark").light && theme_style("Dark").accent.is_none());
    assert_eq!(theme_style("Ocean").accent, Some(((0, 170, 255), (0, 90, 160))));
    assert_eq!(themes(), vec!["Dark", "Light", "Ocean", "Rose", "Forest"]);
}
