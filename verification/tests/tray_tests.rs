use hide_desktop_apps::state::AppState;
use hide_desktop_apps::tray::{
    build_icon_rgba, build_tooltip, BLUE, GREEN, GREY, ORANGE, ORANGE_DOT, RED_QUAD, WHITE, X_RED,
};

fn px(buf: &[u8], x: usize, y: usize) -> [u8; 4] {
    let i = (y * 64 + x) * 4;
    [buf[i], buf[i + 1], buf[i + 2], buf[i + 3]]
}

fn state(i: bool, t: bool, w: bool) -> AppState {
    AppState { icons_hidden: i, taskbar_hidden: t, windows_hidden: w, active_profile: None, hidden_windows: vec![] }
}

#[test]
fn visible_icon_has_four_tiles_and_white_cross() {
    let b = build_icon_rgba(&state(false, false, false));
    assert_eq!(b.len(), 64 * 64 * 4);
    assert_eq!(px(&b, 0, 0), BLUE);
    assert_eq!(px(&b, 29, 29), BLUE);
    assert_eq!(px(&b, 30, 0), WHITE);
    assert_eq!(px(&b, 33, 10), WHITE);
    assert_eq!(px(&b, 34, 0), GREEN);
    assert_eq!(px(&b, 0, 34), RED_QUAD);
    assert_eq!(px(&b, 40, 40), ORANGE);
    assert_eq!(px(&b, 63, 63), ORANGE);
    assert_eq!(px(&b, 10, 31), WHITE);
}

#[test]
fn hidden_icon_is_grey_with_red_cross() {
    let b = build_icon_rgba(&state(true, false, false));
    for i in 0..64 {
        assert_eq!(px(&b, i, i), X_RED);
        assert_eq!(px(&b, i, 63 - i), X_RED);
    }
    assert_eq!(px(&b, 1, 0), X_RED);
    assert_eq!(px(&b, 5, 0), GREY);
    assert_eq!(px(&b, 10, 20), GREY);
    // four grey tiles: the white cross between them stays
    assert_eq!(px(&b, 32, 10), WHITE);
    assert_eq!(px(&b, 10, 31), WHITE);
    assert_eq!(px(&b, 40, 50), GREY);
}

#[test]
fn hidden_windows_icon_is_one_grey_tile_with_red_cross() {
    let b = build_icon_rgba(&state(false, false, true));
    assert_eq!(px(&b, 0, 0), X_RED);
    assert_eq!(px(&b, 5, 0), GREY);
    assert_eq!(px(&b, 32, 10), GREY);
    assert_eq!(px(&b, 10, 31), GREY);
    // hidden windows take precedence over hidden icons
    assert_eq!(build_icon_rgba(&state(true, false, true)), b);
    assert_ne!(build_icon_rgba(&state(true, false, false)), b);
}

#[test]
fn hidden_taskbar_adds_orange_dot() {
    let b = build_icon_rgba(&state(false, true, false));
    assert_eq!(px(&b, 52, 52), ORANGE_DOT);
    assert_eq!(px(&b, 52, 42), ORANGE_DOT);
    assert_eq!(px(&b, 62, 52), ORANGE_DOT);
    assert_eq!(px(&b, 42, 42), ORANGE);
    assert_eq!(px(&b, 59, 59), ORANGE_DOT);
    assert_eq!(px(&b, 60, 60), ORANGE);
}

#[test]
fn tooltip_lists_hidden_things() {
    assert_eq!(build_tooltip(&state(false, false, false)), "HideDesktopApps \u{2014} all visible");
    assert_eq!(build_tooltip(&state(true, false, true)), "HideDesktopApps \u{2014} Icons: hidden, Windows: hidden");
    assert_eq!(
        build_tooltip(&state(true, true, true)),
        "HideDesktopApps \u{2014} Icons: hidden, Taskbar: hidden, Windows: hidden"
    );
}
