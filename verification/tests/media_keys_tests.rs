use nexbox::media_keys::{
    appcommand_action, apply, control_enabled, emit_control_allowed, hotkey_action, is_enabled,
    registered_summary, route_appcommand, route_hotkey, start_enabled, HotkeyRoute, MediaKeyState,
    ID_NEXT, ID_PLAYPAUSE, ID_PREV, ID_STOP, WM_APPCOMMAND, WM_HOTKEY,
};
use nexbox::settings::SettingValue;

#[test]
fn hotkey_ids_map_to_actions() {
    assert_eq!(hotkey_action(ID_PLAYPAUSE), Some("play-pause"));
    assert_eq!(hotkey_action(ID_PREV), Some("prev"));
    assert_eq!(hotkey_action(ID_NEXT), Some("next"));
    assert_eq!(hotkey_action(ID_STOP), Some("stop"));
    assert_eq!(hotkey_action(0x99), None);
}

#[test]
fn appcommand_ignores_device_bits() {
    assert_eq!(appcommand_action(11 << 16), Some("next"));
    assert_eq!(appcommand_action((11 << 16) | (0x8000 << 16)), Some("next"));
    assert_eq!(appcommand_action(14 << 16), Some("play-pause"));
    assert_eq!(appcommand_action(5 << 16), None);
}

#[test]
fn disabled_switch_forwards_to_external_player() {
    let mut st = MediaKeyState::new();
    apply(&mut st, true);
    assert!(is_enabled(&st) && control_enabled(&st) && emit_control_allowed(&st));
    assert!(matches!(route_hotkey(&st, WM_HOTKEY, ID_NEXT), HotkeyRoute::EmitControl("next")));
    let r = apply(&mut st, false);
    assert!(r.restore_subclass && r.request_hotkeys && !r.install_subclass);
    assert!(!emit_control_allowed(&st));
    assert!(matches!(route_hotkey(&st, WM_HOTKEY, ID_NEXT), HotkeyRoute::ForwardExternal("next")));
    assert!(matches!(route_hotkey(&st, 0x0001, ID_NEXT), HotkeyRoute::Default));
    assert_eq!(route_appcommand(&st, WM_APPCOMMAND, 12 << 16), None);
}

#[test]
fn start_switch_and_registration_summary() {
    assert!(start_enabled(&None));
    assert!(!start_enabled(&Some(SettingValue::Bool(false))));
    assert_eq!(registered_summary(&vec![true, false, true, true]), (3, true));
    assert_eq!(registered_summary(&vec![true, true, true, true]), (4, false));
}

#[test]
fn switching_off_clears_the_session() {
    let mut st = MediaKeyState::new();
    let (a, clear) = nexbox::media_keys::set_media_keys_enabled(&mut st, false);
    assert!(clear && a.restore_subclass && !is_enabled(&st));
    let (b, keep) = nexbox::media_keys::set_media_keys_enabled(&mut st, true);
    assert!(!keep && b.install_subclass && is_enabled(&st));
}
