use hide_desktop_apps::commands::{
    check_outcome, classify_hotkey, initial_update_check_ms, launch_profile, menu_command,
    should_run_check, toggle_effect, update_check_due, update_discord, Cmd, Debounce,
    HotkeyTarget, MenuItem, Toggle,
};
use hide_desktop_apps::config::AppConfig;
use hide_desktop_apps::icons::{hide_icons, show_icons, IconsAction};
use hide_desktop_apps::profiles::{
    apply_profile, continue_after_failure, finish_profile, finish_run, next_effect,
    profile_effects, record_effect, restore_all, restore_all_effects, Effect, ProfileError,
};
use hide_desktop_apps::state::{AppState, HiddenWindow};
use hide_desktop_apps::taskbar::{toggle_taskbar, TaskbarAction};

#[test]
fn icons_toggle_only_when_needed() {
    assert_eq!(hide_icons(true), IconsAction::Toggle);
    assert_eq!(hide_icons(false), IconsAction::Skip);
    assert_eq!(show_icons(false), IconsAction::Toggle);
    assert_eq!(show_icons(true), IconsAction::Skip);
}

#[test]
fn taskbar_toggle_reports_new_visibility() {
    assert_eq!(toggle_taskbar(true), (TaskbarAction::Hide, false));
    assert_eq!(toggle_taskbar(false), (TaskbarAction::Show, true));
}

#[test]
fn applying_a_profile() {
    let cfg = AppConfig::default();
    let mut st = AppState::default();
    let es = apply_profile("Focus", &cfg, &st).unwrap();
    assert_eq!(es, vec![Effect::HideIcons, Effect::HideTaskbar]);
    for e in es {
        record_effect(&mut st, e, vec![]);
    }
    finish_profile(&mut st, "Focus");
    assert!(st.icons_hidden && st.taskbar_hidden && !st.windows_hidden);
    assert_eq!(st.active_profile.as_deref(), Some("Focus"));
    // switching to a profile that shows the taskbar again
    let es = apply_profile("Clean Desktop", &cfg, &st).unwrap();
    assert_eq!(es, vec![Effect::ShowTaskbar]);
    let es = apply_profile("Presentation", &cfg, &st).unwrap();
    assert_eq!(es, vec![Effect::HideWindows]);
    let w = vec![HiddenWindow { hwnd: 5, show_cmd: 3 }];
    record_effect(&mut st, Effect::HideWindows, w.clone());
    assert_eq!(st.hidden_windows, w);
    assert_eq!(profile_effects(&cfg.profiles[2], &st), vec![Effect::ShowTaskbar, Effect::RestoreWindows]);
    match apply_profile("Nope", &cfg, &st) {
        Err(e @ ProfileError::NotFound(_)) => assert_eq!(e.message(), "Profile 'Nope' not found"),
        Ok(_) => panic!("found"),
    }
}

#[test]
fn restoring_everything() {
    let mut st = AppState {
        icons_hidden: true,
        taskbar_hidden: false,
        windows_hidden: true,
        active_profile: Some("x".into()),
        hidden_windows: vec![HiddenWindow { hwnd: 1, show_cmd: 1 }],
    };
    assert_eq!(restore_all_effects(&st), vec![Effect::ShowIcons, Effect::RestoreWindows]);
    restore_all(&mut st);
    assert!(!st.icons_hidden && !st.taskbar_hidden && !st.windows_hidden);
    assert!(st.active_profile.is_none() && st.hidden_windows.is_empty());
    assert!(restore_all_effects(&st).is_empty());
}

#[test]
fn hotkey_dispatch_and_debounce() {
    assert_eq!(classify_hotkey(5, 5, 6, 7), HotkeyTarget::Icons);
    assert_eq!(classify_hotkey(6, 5, 6, 7), HotkeyTarget::Taskbar);
    assert_eq!(classify_hotkey(7, 5, 6, 7), HotkeyTarget::Windows);
    assert_eq!(classify_hotkey(8, 5, 6, 7), HotkeyTarget::Other);
    let mut d = Debounce::new(1000);
    assert!(matches!(d.fire(HotkeyTarget::Icons, 1000), Some(Cmd::ToggleIcons)));
    assert!(d.fire(HotkeyTarget::Icons, 1399).is_none());
    assert!(matches!(d.fire(HotkeyTarget::Taskbar, 1399), Some(Cmd::ToggleTaskbar)));
    assert!(matches!(d.fire(HotkeyTarget::Icons, 1400), Some(Cmd::ToggleIcons)));
    assert!(d.fire(HotkeyTarget::Other, 5000).is_none());
    let mut early = Debounce::new(100);
    assert!(early.fire(HotkeyTarget::Windows, 100).is_none());
    assert!(matches!(early.fire(HotkeyTarget::Windows, 500), Some(Cmd::ToggleWindows)));
}

#[test]
fn menu_clicks() {
    let names = vec!["A".to_string(), "B".to_string()];
    assert!(matches!(menu_command(MenuItem::Settings, &names), Some(Cmd::OpenSettings)));
    assert!(menu_command(MenuItem::CheckUpdates, &names).is_none());
    assert!(matches!(menu_command(MenuItem::Profile(1), &names), Some(Cmd::ApplyProfile(n)) if n == "B"));
    assert!(menu_command(MenuItem::Profile(2), &names).is_none());
    assert!(matches!(menu_command(MenuItem::Exit, &names), Some(Cmd::Exit)));
}

#[test]
fn toggles_and_presence() {
    let mut st = AppState::default();
    assert_eq!(toggle_effect(Toggle::Windows, &st), Effect::HideWindows);
    st.icons_hidden = true;
    assert_eq!(toggle_effect(Toggle::Icons, &st), Effect::ShowIcons);
    let mut cfg = AppConfig::default();
    let m = update_discord(&st, &cfg).unwrap().unwrap();
    assert!(m.icons_hidden && !m.taskbar_hidden);
    st.icons_hidden = false;
    assert!(update_discord(&st, &cfg).unwrap().is_none());
    cfg.discord.enabled = false;
    assert!(update_discord(&st, &cfg).is_none());
}

#[test]
fn only_window_hiding_failures_are_skipped() {
    assert!(continue_after_failure(Effect::HideWindows));
    assert!(!continue_after_failure(Effect::HideIcons));
    assert!(!continue_after_failure(Effect::RestoreWindows));
}

#[test]
fn profile_runs() {
    let effects = vec![Effect::HideIcons, Effect::HideTaskbar, Effect::HideWindows];
    let mut outs = Vec::new();
    assert_eq!(next_effect(&effects, &outs), Some(Effect::HideIcons));
    outs.push(Some(vec![]));
    outs.push(Some(vec![]));
    assert_eq!(next_effect(&effects, &outs), Some(Effect::HideWindows));
    // a failure to hide windows is skipped: the profile still becomes active
    outs.push(None);
    assert_eq!(next_effect(&effects, &outs), None);
    let mut st = AppState::default();
    assert_eq!(finish_run(&mut st, "Focus", &effects, outs), Ok(()));
    assert!(st.icons_hidden && st.taskbar_hidden && !st.windows_hidden);
    assert_eq!(st.active_profile.as_deref(), Some("Focus"));

    // any other failure stops the run; what succeeded before stays recorded
    let mut outs = vec![Some(vec![])];
    outs.push(None);
    assert_eq!(next_effect(&effects, &outs), None);
    let mut st = AppState::default();
    assert_eq!(finish_run(&mut st, "Focus", &effects, outs), Err(1));
    assert!(st.icons_hidden && !st.taskbar_hidden && st.active_profile.is_none());

    // all succeed, windows recorded
    let outs = vec![Some(vec![]), Some(vec![]), Some(vec![HiddenWindow { hwnd: 9, show_cmd: 1 }])];
    let mut st = AppState::default();
    assert_eq!(finish_run(&mut st, "P", &effects, outs), Ok(()));
    assert!(st.windows_hidden && st.hidden_windows.len() == 1);
}

#[test]
fn toggling_twice_restores() {
    let mut st = AppState::default();
    let e = toggle_effect(Toggle::Windows, &st);
    record_effect(&mut st, e, vec![HiddenWindow { hwnd: 7, show_cmd: 3 }]);
    assert!(st.windows_hidden && st.hidden_windows.len() == 1);
    let e = toggle_effect(Toggle::Windows, &st);
    assert_eq!(e, Effect::RestoreWindows);
    record_effect(&mut st, e, Vec::new());
    assert!(!st.windows_hidden && st.hidden_windows.is_empty());
    let e = toggle_effect(Toggle::Taskbar, &st);
    record_effect(&mut st, e, Vec::new());
    let e = toggle_effect(Toggle::Taskbar, &st);
    record_effect(&mut st, e, Vec::new());
    assert!(!st.taskbar_hidden && !st.icons_hidden);
}

#[test]
fn update_check_schedule() {
    let first = initial_update_check_ms(100_000_000, 24);
    assert_eq!(first, 100_000_000 - 86_400_000);
    assert!(update_check_due(true, first, 100_000_000, 24));
    assert!(!update_check_due(false, first, 100_000_000, 24));
    assert!(!update_check_due(true, 100_000_000, 100_000_001, 24));
    assert_eq!(initial_update_check_ms(5, 1), 5);
    assert!(should_run_check(false, true) && !should_run_check(false, false));
    assert!(matches!(check_outcome(Ok(Some("2.0.0".into())), false), Some(Cmd::UpdateAvailable(v)) if v == "2.0.0"));
    assert!(matches!(check_outcome(Ok(None), true), Some(Cmd::UpToDate)));
    assert!(check_outcome(Ok(None), false).is_none());
    assert!(check_outcome(Err("x".into()), true).is_none());
}

#[test]
fn launch_profile_only_when_set() {
    let mut cfg = AppConfig::default();
    assert!(launch_profile(&cfg).is_none());
    cfg.defaults.profile = "Focus".into();
    assert_eq!(launch_profile(&cfg).as_deref(), Some("Focus"));
}
