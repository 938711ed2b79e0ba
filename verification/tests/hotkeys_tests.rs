use global_hotkey::hotkey::{Code, HotKey, Modifiers};
use hide_desktop_apps::config::ProfileConfig;
use hide_desktop_apps::hotkeys::{
    build_hotkey, capture_combo, code_name_string, default_hotkeys, hotkey_id, key_token_string,
    parse_for_edit, parse_hotkey, parse_key_code, parse_or_default, profile_for_hotkey,
    Hotkey, HotkeyError, KeyCode, KeyPress,
};

fn chars(s: &str) -> Vec<char> {
    s.chars().collect()
}

#[test]
fn parses_default_hotkeys() {
    let (i, t, w) = default_hotkeys();
    assert_eq!(parse_hotkey("ctrl+alt+h").unwrap(), i);
    assert_eq!(parse_hotkey("ctrl+alt+t").unwrap(), t);
    assert_eq!(parse_hotkey("ctrl+alt+w").unwrap(), w);
}

#[test]
fn parses_modifier_spellings_and_keys() {
    let h = parse_hotkey(" Control + SHIFT + Win + F12 ").unwrap();
    assert!(h.ctrl && h.shift && h.win && !h.alt);
    assert_eq!(h.key, KeyCode::Function(12));
    let h = parse_hotkey("super+meta+digit7").unwrap();
    assert!(h.win && !h.ctrl);
    assert_eq!(h.key, KeyCode::Digit(7));
    assert_eq!(parse_hotkey("alt+0").unwrap().key, KeyCode::Digit(0));
    assert_eq!(parse_hotkey("alt+Z").unwrap().key, KeyCode::Letter(25));
}

#[test]
fn refuses_bad_hotkeys() {
    match parse_hotkey("h") {
        Err(e @ HotkeyError::TooFewParts(_)) => {
            assert_eq!(e.message(), "Hotkey 'h' must have at least one modifier and one key")
        }
        other => panic!("{:?}", other),
    }
    match parse_hotkey("ctrl+Hyper+h") {
        Err(e @ HotkeyError::UnknownModifier(_)) => assert_eq!(e.message(), "Unknown modifier: 'hyper'"),
        other => panic!("{:?}", other),
    }
    match parse_hotkey("ctrl+alt+f13") {
        Err(e @ HotkeyError::UnknownKey(_)) => assert_eq!(e.message(), "Unknown key: 'f13'"),
        other => panic!("{:?}", other),
    }
    assert!(matches!(parse_hotkey("ctrl++h"), Err(HotkeyError::UnknownModifier(m)) if m.is_empty()));
    assert!(matches!(parse_hotkey("ctrl+alt+"), Err(HotkeyError::UnknownKey(k)) if k.is_empty()));
}

#[test]
fn key_codes_and_tokens() {
    assert_eq!(parse_key_code(&chars("a")), Some(KeyCode::Letter(0)));
    assert_eq!(parse_key_code(&chars("digit9")), Some(KeyCode::Digit(9)));
    assert_eq!(parse_key_code(&chars("f1")), Some(KeyCode::Function(1)));
    assert_eq!(parse_key_code(&chars("f10")), Some(KeyCode::Function(10)));
    assert_eq!(parse_key_code(&chars("f0")), None);
    assert_eq!(parse_key_code(&chars("A")), None);
    assert_eq!(parse_key_code(&chars("digitx")), None);
    for i in 0..26u8 {
        let k = KeyCode::Letter(i);
        assert_eq!(parse_key_code(&chars(&key_token_string(k))), Some(k));
    }
    for n in 1..=12u8 {
        let k = KeyCode::Function(n);
        assert_eq!(parse_key_code(&chars(&key_token_string(k))), Some(k));
    }
    assert_eq!(code_name_string(KeyCode::Letter(7)), "KeyH");
    assert_eq!(code_name_string(KeyCode::Digit(3)), "Digit3");
    assert_eq!(code_name_string(KeyCode::Function(11)), "F11");
}

#[test]
fn fallback_when_refused() {
    let (i, _, _) = default_hotkeys();
    assert_eq!(parse_or_default("bogus", i), (i, true));
    let (h, used) = parse_or_default("shift+alt+1", i);
    assert!(!used && h.shift && h.alt && h.key == KeyCode::Digit(1));
}

#[test]
fn hotkey_ids_match_global_hotkey() {
    let h: Hotkey = parse_hotkey("ctrl+alt+h").unwrap();
    let expected = HotKey::new(Some(Modifiers::CONTROL | Modifiers::ALT), Code::KeyH).id();
    assert_eq!(hotkey_id(h), Some(expected));
    let h = parse_hotkey("shift+win+f5").unwrap();
    let expected = HotKey::new(Some(Modifiers::SHIFT | Modifiers::SUPER), Code::F5).id();
    assert_eq!(hotkey_id(h), Some(expected));
}

#[test]
fn profile_hotkeys_select_first_match() {
    let mk = |name: &str, hk: &str| ProfileConfig {
        name: name.to_string(),
        hotkey: hk.to_string(),
        icons: true,
        taskbar: false,
        windows: false,
    };
    let profiles = vec![mk("None", ""), mk("Bad", "q"), mk("Focus", "ctrl+alt+f"), mk("Again", "alt+ctrl+f")];
    let id = HotKey::new(Some(Modifiers::CONTROL | Modifiers::ALT), Code::KeyF).id();
    assert_eq!(profile_for_hotkey(&profiles, id), Some("Focus".to_string()));
    assert_eq!(profile_for_hotkey(&profiles, id ^ 1), None);
}

#[test]
fn editor_split_and_join() {
    assert_eq!(parse_for_edit("ctrl+alt+h"), (true, true, false, false, "H".to_string()));
    assert_eq!(parse_for_edit(" Shift + SUPER + f5 "), (false, false, true, true, "F5".to_string()));
    assert_eq!(parse_for_edit("x"), (false, false, false, false, "X".to_string()));
    assert_eq!(build_hotkey(true, false, true, true, "k"), "ctrl+shift+win+k");
    assert_eq!(build_hotkey(false, false, false, false, "k"), "k");
    let (c, a, s, w, k) = parse_for_edit(&build_hotkey(true, true, false, true, "q"));
    assert_eq!((c, a, s, w, k.as_str()), (true, true, false, true, "Q"));
}

#[test]
fn recorder_takes_first_usable_press() {
    let ev = |key, pressed, ctrl, alt, shift| KeyPress { key, pressed, ctrl, alt, shift };
    let events = vec![
        ev(None, true, true, false, false),
        ev(Some(KeyCode::Letter(0)), true, false, false, false),
        ev(Some(KeyCode::Letter(1)), false, true, false, false),
        ev(Some(KeyCode::Function(4)), true, true, false, true),
        ev(Some(KeyCode::Letter(2)), true, true, false, false),
    ];
    assert_eq!(capture_combo(&events), Some("ctrl+shift+f4".to_string()));
    assert_eq!(capture_combo(&events[..3].to_vec()), None);
    let recorded = capture_combo(&events).unwrap();
    assert_eq!(
        parse_hotkey(&recorded).unwrap(),
        Hotkey { ctrl: true, alt: false, shift: true, win: false, key: KeyCode::Function(4) }
    );
}

#[test]
fn built_hotkeys_parse_back() {
    let s = build_hotkey(false, true, false, true, "7");
    assert_eq!(s, "alt+win+7");
    assert_eq!(
        parse_hotkey(&s).unwrap(),
        Hotkey { ctrl: false, alt: true, shift: false, win: true, key: KeyCode::Digit(7) }
    );
    let s = build_hotkey(true, true, true, true, "f12");
    assert_eq!(
        parse_hotkey(&s).unwrap(),
        Hotkey { ctrl: true, alt: true, shift: true, win: true, key: KeyCode::Function(12) }
    );
}
