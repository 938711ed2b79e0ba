use hide_desktop_apps::discord::{
    activity_json, clamp, clear_rich_presence, decode_frame_header, encode_frame, frame_text,
    handshake_payload, handshake_step, hidden_list, pump_step, set_activity_payload,
    set_rich_presence, HandshakeStep, Presence, PumpStep, Worker,
};

#[test]
fn hidden_list_reads_like_english() {
    assert_eq!(hidden_list(true, false, false), "desktop icons");
    assert_eq!(hidden_list(true, true, false), "desktop icons & the taskbar");
    assert_eq!(hidden_list(true, true, true), "desktop icons, the taskbar & app windows");
}

#[test]
fn activity_has_details_state_and_button() {
    let p = Presence {
        icons_hidden: true,
        taskbar_hidden: true,
        windows_hidden: false,
        active_profile: Some("Focus".into()),
    };
    let a: serde_json::Value = serde_json::from_str(&activity_json(&p, 1_700_000_000)).unwrap();
    assert_eq!(a["details"], "Hiding desktop icons & the taskbar");
    assert_eq!(a["state"], "Profile: Focus");
    assert_eq!(a["buttons"][0]["url"], "https://github.com/Londopy/HideDesktopApps");
    assert_eq!(a["timestamps"]["start"], 1_700_000_000u64);
}

#[test]
fn no_profile_falls_back_to_custom() {
    let p = Presence {
        icons_hidden: false,
        taskbar_hidden: false,
        windows_hidden: true,
        active_profile: None,
    };
    let a: serde_json::Value = serde_json::from_str(&activity_json(&p, 0)).unwrap();
    assert_eq!(a["state"], "Custom setup");
}

#[test]
fn long_profile_names_are_clamped() {
    let p = Presence {
        icons_hidden: true,
        taskbar_hidden: false,
        windows_hidden: false,
        active_profile: Some("x".repeat(200)),
    };
    let a: serde_json::Value = serde_json::from_str(&activity_json(&p, 0)).unwrap();
    let state = a["state"].as_str().unwrap().to_string();
    assert!(state.chars().count() <= 128);
}

#[test]
fn activity_json_text_is_exact() {
    let p = Presence {
        icons_hidden: false,
        taskbar_hidden: true,
        windows_hidden: false,
        active_profile: Some("a\"b\\c\n".into()),
    };
    let text = activity_json(&p, 42);
    assert_eq!(
        text,
        "{\"assets\":{\"large_image\":\"logo\",\"large_text\":\"HideDesktopApps \u{2014} clear your desktop with one hotkey\"},\"buttons\":[{\"label\":\"Get HideDesktopApps\",\"url\":\"https://github.com/Londopy/HideDesktopApps\"}],\"details\":\"Hiding the taskbar\",\"state\":\"Profile: a\\\"b\\\\c\\n\",\"timestamps\":{\"start\":42}}"
    );
    // the same text as serde_json writes for the same value
    let v: serde_json::Value = serde_json::from_str(&text).unwrap();
    assert_eq!(serde_json::to_string(&v).unwrap(), text);
}

#[test]
fn clamp_keeps_short_and_cuts_long() {
    assert_eq!(clamp("abc".to_string()), "abc");
    let exact = "y".repeat(128);
    assert_eq!(clamp(exact.clone()), exact);
    let long = clamp("é".repeat(129));
    assert_eq!(long.chars().count(), 128);
    assert!(long.ends_with('\u{2026}'));
    assert!(long.starts_with(&"é".repeat(127)));
}

#[test]
fn presence_messages() {
    assert!(set_rich_presence(false, false, false, Some("P".into())).is_none());
    let m = set_rich_presence(false, true, false, None).unwrap();
    assert!(m.taskbar_hidden && !m.icons_hidden && !m.windows_hidden && m.active_profile.is_none());
    assert!(clear_rich_presence().is_none());
}

#[test]
fn control_characters_are_escaped_like_serde_json() {
    let p = Presence {
        icons_hidden: true,
        taskbar_hidden: false,
        windows_hidden: false,
        active_profile: Some("\u{1}\u{8}\u{c}\r\t\u{1f}\u{7f}".into()),
    };
    let text = activity_json(&p, 1);
    let v: serde_json::Value = serde_json::from_str(&text).unwrap();
    assert_eq!(serde_json::to_string(&v).unwrap(), text);
    assert_eq!(v["state"], "Profile: \u{1}\u{8}\u{c}\r\t\u{1f}\u{7f}");
}

#[test]
fn payloads() {
    assert_eq!(handshake_payload(), "{\"client_id\":\"1506489357534761111\",\"v\":1}");
    assert_eq!(
        set_activity_payload(1234, None, 7),
        "{\"args\":{\"activity\":null,\"pid\":1234},\"cmd\":\"SET_ACTIVITY\",\"nonce\":\"7\"}"
    );
    assert_eq!(
        set_activity_payload(0, Some("{}"), 18446744073709551615),
        "{\"args\":{\"activity\":{},\"pid\":0},\"cmd\":\"SET_ACTIVITY\",\"nonce\":\"18446744073709551615\"}"
    );
}

#[test]
fn frames_roundtrip() {
    let f = encode_frame(1, b"hello");
    assert_eq!(f, vec![1, 0, 0, 0, 5, 0, 0, 0, b'h', b'e', b'l', b'l', b'o']);
    assert_eq!(decode_frame_header(&f[0..8]), Some((1, 5)));
    let g = frame_text(0x0102_0304, "é");
    assert_eq!(g[0..8], [4, 3, 2, 1, 2, 0, 0, 0]);
    assert_eq!(decode_frame_header(&[3, 0, 0, 0, 0, 0, 1, 0]), Some((3, 65536)));
    assert_eq!(decode_frame_header(&[3, 0, 0, 0, 1, 0, 1, 0]), None);
}

#[test]
fn connection_steps() {
    assert!(matches!(handshake_step(Some((1, String::new()))), HandshakeStep::Ready));
    assert!(matches!(handshake_step(Some((2, "bye".into()))), HandshakeStep::Closed(b) if b == "bye"));
    assert!(matches!(handshake_step(Some((3, "p".into()))), HandshakeStep::Pong(b) if b == "p"));
    assert!(matches!(handshake_step(Some((4, String::new()))), HandshakeStep::Wait));
    assert!(matches!(handshake_step(None), HandshakeStep::Wait));
    assert!(matches!(pump_step(3, "x".into()), PumpStep::Pong(b) if b == "x"));
    assert!(matches!(pump_step(2, "x".into()), PumpStep::Closed(_)));
    assert!(matches!(pump_step(1, "x".into()), PumpStep::Ignore));
}

#[test]
fn worker_connects_pushes_and_backs_off() {
    let mut w = Worker::new(100, 0);
    assert!(!w.wants_connect(0));
    let p = Presence { icons_hidden: true, taskbar_hidden: false, windows_hidden: false, active_profile: None };
    w.on_message(Some(p), 200);
    assert_eq!(w.started_at, 200);
    assert!(w.wants_connect(0));
    w.on_connect(false, 0);
    assert_eq!((w.next_retry_ms, w.backoff_ms), (2000, 4000));
    assert!(!w.wants_connect(1999));
    for _ in 0..10 {
        w.on_connect(false, 5000);
    }
    assert_eq!(w.backoff_ms, 60000);
    w.on_connect(true, 9000);
    assert_eq!(w.backoff_ms, 2000);
    let pending = w.pending_activity().unwrap();
    assert!(pending.is_some());
    w.on_activity_sent(true, 9000);
    assert!(w.pending_activity().is_none());
    // a second presence while one is set keeps the session timer
    let q = Presence { icons_hidden: true, taskbar_hidden: true, windows_hidden: false, active_profile: None };
    w.on_message(Some(q), 300);
    assert_eq!(w.started_at, 200);
    assert!(w.pending_activity().is_some());
    w.on_activity_sent(false, 10000);
    assert!(!w.connected && w.shown.is_none());
    assert_eq!(w.next_retry_ms, 12000);
    w.on_connection_lost(u64::MAX);
    assert_eq!(w.next_retry_ms, u64::MAX);
}
