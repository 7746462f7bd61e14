use nexbox::hotkey::{
    apply_hotkeys_enabled, apply_single_hotkey, cleanup, default_shortcut, dispatch_shortcut,
    get_autoclicker_shortcut, get_overlay_shortcut, get_overlay_shortcut_id, get_shortcut,
    hotkey_register_error, init_hotkey, init_overlay, init_register_error, is_hotkeys_enabled,
    is_mouse_key, load_saved_hotkey, load_saved_hotkeys_enabled, music_action_for,
    set_hotkeys_enabled, set_hotkeys_enabled_cmd, update_begin, update_finish, HotkeyAction,
    HotkeySlot, HotkeyState, RegisterFailure, ShortcutParse, UpdateStep,
};
use nexbox::settings::SettingValue;

fn is_register(a: &HotkeyAction, s: &str) -> bool {
    matches!(a, HotkeyAction::Register(x) if x == s)
}

fn is_unregister(a: &HotkeyAction, s: &str) -> bool {
    matches!(a, HotkeyAction::Unregister(x) if x == s)
}

#[test]
fn fresh_state_has_master_on_and_nothing_stored() {
    let st = HotkeyState::new();
    assert!(is_hotkeys_enabled(&st));
    assert_eq!(get_overlay_shortcut(&st), "");
    assert_eq!(get_overlay_shortcut_id(&st), 0);
    assert_eq!(get_autoclicker_shortcut(&st), "");
}

#[test]
fn init_registers_when_switches_on() {
    let mut st = HotkeyState::new();
    let a = init_overlay(&mut st, "Shift+F10", Some(42));
    assert!(matches!(a, Some(ref x) if is_register(x, "Shift+F10")));
    assert_eq!(get_overlay_shortcut(&st), "Shift+F10");
    assert_eq!(get_overlay_shortcut_id(&st), 42);
}

#[test]
fn set_then_get_gives_the_shortcut_back() {
    let mut st = HotkeyState::new();
    init_hotkey(&mut st, HotkeySlot::Filter, "Shift+F8", Some(7));
    assert_eq!(get_shortcut(&st, HotkeySlot::Filter), "Shift+F8");
    assert_eq!(dispatch_shortcut(&st, 7), Some(HotkeySlot::Filter));
}

#[test]
fn dispatch_needs_the_master_switch() {
    let mut st = HotkeyState::new();
    init_hotkey(&mut st, HotkeySlot::Crosshair, "Shift+F9", Some(9));
    assert_eq!(dispatch_shortcut(&st, 9), Some(HotkeySlot::Crosshair));
    set_hotkeys_enabled(&mut st, false);
    assert_eq!(dispatch_shortcut(&st, 9), None);
    assert_eq!(dispatch_shortcut(&st, 12345), None);
}

#[test]
fn master_off_only_releases() {
    let mut st = HotkeyState::new();
    init_hotkey(&mut st, HotkeySlot::Overlay, "Shift+F10", Some(1));
    init_hotkey(&mut st, HotkeySlot::Crosshair, "Shift+F9", Some(2));
    let acts = set_hotkeys_enabled_cmd(&mut st, false);
    assert!(!is_hotkeys_enabled(&st));
    assert_eq!(acts.len(), 2);
    assert!(is_unregister(&acts[0], "Shift+F10"));
    assert!(is_unregister(&acts[1], "Shift+F9"));
    let back = apply_hotkeys_enabled(&st, true);
    // the master switch is still off in the state, so turning on re-registers nothing
    assert!(back.iter().all(|a| matches!(a, HotkeyAction::Unregister(_))));
}

#[test]
fn mouse_shortcut_goes_to_the_hook() {
    assert!(is_mouse_key("Mouse4"));
    assert!(!is_mouse_key("Shift+F8"));
    let st = HotkeyState::new();
    let a = apply_single_hotkey(&st, "Mouse5", true);
    assert!(matches!(a, Some(HotkeyAction::SetMouseHotkey(Some(ref s))) if s == "Mouse5"));
    let off = apply_single_hotkey(&st, "Mouse5", false);
    assert!(matches!(off, Some(HotkeyAction::SetMouseHotkey(None))));
    assert!(apply_single_hotkey(&st, "", true).is_none());
}

#[test]
fn same_shortcut_update_is_unchanged() {
    let mut st = HotkeyState::new();
    init_hotkey(&mut st, HotkeySlot::MusicNext, "Alt+]", Some(3));
    assert!(matches!(update_begin(&st, HotkeySlot::MusicNext, "Alt+]"), UpdateStep::Unchanged));
    match update_begin(&st, HotkeySlot::MusicNext, "Alt+N") {
        UpdateStep::Perform { release, register } => {
            assert_eq!(release.len(), 1);
            assert!(is_unregister(&release[0], "Alt+]"));
            assert_eq!(register.as_deref(), Some("Alt+N"));
        }
        UpdateStep::Unchanged => panic!("a new shortcut must be applied"),
    }
}

#[test]
fn update_while_switched_off_only_stores() {
    let mut st = HotkeyState::new();
    init_hotkey(&mut st, HotkeySlot::MusicNext, "Alt+]", Some(3));
    set_hotkeys_enabled(&mut st, false);
    match update_begin(&st, HotkeySlot::MusicNext, "Alt+N") {
        UpdateStep::Perform { register, .. } => assert_eq!(register, None),
        UpdateStep::Unchanged => panic!("a new shortcut must be stored"),
    }
    let fresh = HotkeyState::new();
    match update_begin(&fresh, HotkeySlot::Autoclicker, "Mouse4") {
        UpdateStep::Perform { release, register } => {
            assert_eq!(register, None);
            assert!(matches!(release.last(), Some(HotkeyAction::SetMouseHotkey(None))));
        }
        UpdateStep::Unchanged => panic!("a new shortcut must be stored"),
    }
}

#[test]
fn failed_update_restores_old_shortcut() {
    let mut st = HotkeyState::new();
    init_hotkey(&mut st, HotkeySlot::MusicNext, "Alt+]", Some(3));
    let failure = RegisterFailure { parse: ShortcutParse::WithModifiers, message: "HotKey already registered".to_string() };
    let (res, rollback) = update_finish(&mut st, HotkeySlot::MusicNext, "Alt+N", Some(4), Some(failure));
    assert_eq!(res, Err("注册下一曲热键失败：该快捷键已被其他程序占用，请更换组合键".to_string()));
    assert_eq!(get_shortcut(&st, HotkeySlot::MusicNext), "Alt+]");
    assert!(rollback.iter().any(|a| is_register(a, "Alt+]")));
    let (ok, none) = update_finish(&mut st, HotkeySlot::MusicNext, "Alt+N", Some(4), None);
    assert!(ok.is_ok());
    assert!(none.is_empty());
    assert_eq!(get_shortcut(&st, HotkeySlot::MusicNext), "Alt+N");
}

#[test]
fn register_error_messages() {
    assert_eq!(
        hotkey_register_error("注册准心热键", "F9", ShortcutParse::NoModifiers, "x"),
        "注册准心热键失败：快捷键必须包含 Ctrl、Alt、Shift 或 Win 修饰键，请重新录制"
    );
    assert_eq!(
        hotkey_register_error("注册准心热键", "??", ShortcutParse::Invalid, "x"),
        "注册准心热键失败：快捷键格式无效，请重新录制"
    );
    assert_eq!(
        hotkey_register_error("注册准心热键", "Shift+F9", ShortcutParse::WithModifiers, "boom"),
        "注册准心热键失败：boom"
    );
    assert_eq!(init_register_error(HotkeySlot::Overlay, "bad"), "注册悬浮框热键失败: bad");
}

#[test]
fn defaults_and_saved_values() {
    assert_eq!(default_shortcut(HotkeySlot::Overlay), "Shift+F10");
    assert_eq!(default_shortcut(HotkeySlot::Autoclicker), "F8");
    assert_eq!(load_saved_hotkey(&Some(SettingValue::Str("  ".to_string())), "Shift+F9"), "Shift+F9");
    assert_eq!(load_saved_hotkey(&Some(SettingValue::Str("Ctrl+K".to_string())), "Shift+F9"), "Ctrl+K");
    assert_eq!(load_saved_hotkey(&None, "F8"), "F8");
    assert!(load_saved_hotkeys_enabled(&None));
    assert!(!load_saved_hotkeys_enabled(&Some(SettingValue::Bool(false))));
    assert_eq!(music_action_for(HotkeySlot::MusicPrev), Some("prev"));
    assert_eq!(music_action_for(HotkeySlot::Overlay), None);
}

#[test]
fn cleanup_releases_keyboard_shortcuts_only() {
    let mut st = HotkeyState::new();
    init_hotkey(&mut st, HotkeySlot::Overlay, "Shift+F10", Some(1));
    init_hotkey(&mut st, HotkeySlot::Autoclicker, "Mouse4", None);
    let acts = cleanup(&st);
    assert_eq!(acts.len(), 1);
    assert!(is_unregister(&acts[0], "Shift+F10"));
}
