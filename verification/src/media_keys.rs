//! Physical media keys (play/pause, previous, next, stop): which command a key
//! message stands for and where it is routed.
//!
//! The keys are always held by system-wide hotkeys.  With the switch on they drive
//! the built-in player; with it off they are forwarded to the external player's
//! media session.  Window subclassing, the message thread and the registrations
//! themselves stay with the caller.

use vstd::prelude::*;
use crate::settings::SettingValue;

verus! {

/// `WM_HOTKEY`.
pub const WM_HOTKEY: u32 = 0x0312;
/// `WM_APPCOMMAND`.
pub const WM_APPCOMMAND: u32 = 0x0319;

/// Hotkey ids of the four media keys.
pub const ID_PLAYPAUSE: i32 = 0x10;
pub const ID_PREV: i32 = 0x11;
pub const ID_NEXT: i32 = 0x12;
pub const ID_STOP: i32 = 0x13;

/// The number of media keys the message window registers.
pub const MEDIA_HOTKEY_COUNT: usize = 4;

/// The media-key switch.
pub struct MediaKeyState {
    pub enabled: bool,
}

/// What changing the switch asks of the window layer.
pub struct MediaKeyApply {
    /// Subclass the main window to catch `WM_APPCOMMAND` (switch on).
    pub install_subclass: bool,
    /// Give the main window its own window procedure back (switch off).
    pub restore_subclass: bool,
    /// Ask the message thread to (re-)register the media hotkeys: always.
    pub request_hotkeys: bool,
}

/// Where a hotkey message goes.
#[derive(Debug)]
pub enum HotkeyRoute {
    /// Tell the front end (`smtc:control`) to run the action on the built-in player.
    EmitControl(&'static str),
    /// Send the action to the external player's media session.
    ForwardExternal(&'static str),
    /// Not a media hotkey: let the default window procedure handle it.
    Default,
}

/// The media command in the high word of a `WM_APPCOMMAND` `lParam`, without the
/// device bits.
pub open spec fn appcommand_cmd(lparam: isize) -> i32 {
    ((((lparam >> 16u32) & 0xFFFFisize) as i32) & 0x7FFFi32)
}

/// The action of a media command (`next`, `prev`, `stop`, `play-pause`).
pub open spec fn appcommand_action_spec(cmd: i32) -> Option<&'static str> {
    if cmd == 11 {
        Some("next")
    } else if cmd == 12 {
        Some("prev")
    } else if cmd == 13 {
        Some("stop")
    } else if cmd == 14 || cmd == 46 || cmd == 47 {
        Some("play-pause")
    } else {
        None
    }
}

/// The action of a media hotkey id.
pub open spec fn hotkey_action_spec(id: i32) -> Option<&'static str> {
    if id == ID_PLAYPAUSE {
        Some("play-pause")
    } else if id == ID_PREV {
        Some("prev")
    } else if id == ID_NEXT {
        Some("next")
    } else if id == ID_STOP {
        Some("stop")
    } else {
        None
    }
}

impl MediaKeyState {
    /// The switch starts on.
    pub fn new() -> (r: MediaKeyState)
        ensures
            r.enabled,
    {
        MediaKeyState { enabled: true }
    }
}

/// Whether media-key capture is on.
pub fn is_enabled(state: &MediaKeyState) -> (r: bool)
    ensures
        r == state.enabled,
{
    state.enabled
}

/// The switch as other modules read it (whether the built-in media session stays active).
pub fn control_enabled(state: &MediaKeyState) -> (r: bool)
    ensures
        r == state.enabled,
{
    is_enabled(state)
}

/// Sets the switch and returns what the window layer must do: subclass the main
/// window when on, restore it when off, and in both cases keep the hotkeys registered.
pub fn apply(state: &mut MediaKeyState, enabled: bool) -> (r: MediaKeyApply)
    ensures
        final(state).enabled == enabled,
        r.install_subclass == enabled,
        r.restore_subclass == !enabled,
        r.request_hotkeys,
{
    state.enabled = enabled;
    MediaKeyApply { install_subclass: enabled, restore_subclass: !enabled, request_hotkeys: true }
}

/// The switch command from the settings page: as `apply`, and when the
/// switch goes off the built-in media session is also cleared (second part),
/// so that the system stops routing media controls to it.
pub fn set_media_keys_enabled(state: &mut MediaKeyState, enabled: bool) -> (r: (MediaKeyApply, bool))
    ensures
        final(state).enabled == enabled,
        r.0.install_subclass == enabled,
        r.0.restore_subclass == !enabled,
        r.0.request_hotkeys,
        r.1 == !enabled,
{
    let a = apply(state, enabled);
    (a, !enabled)
}

/// The switch at start-up: the saved `nexbox_media_keys_enabled`, on by default.
pub fn start_enabled(saved: &Option<SettingValue>) -> (r: bool)
    ensures
        r == match saved {
            Some(SettingValue::Bool(b)) => *b,
            _ => true,
        },
{
    match saved {
        Some(SettingValue::Bool(b)) => *b,
        _ => true,
    }
}

/// The action of the media command carried by a `WM_APPCOMMAND` `lParam`.
pub fn appcommand_action(lparam: isize) -> (r: Option<&'static str>)
    ensures
        r == appcommand_action_spec(appcommand_cmd(lparam)),
{
    let cmd: i32 = (((lparam >> 16u32) & 0xFFFFisize) as i32) & 0x7FFFi32;
    if cmd == 11 {
        Some("next")
    } else if cmd == 12 {
        Some("prev")
    } else if cmd == 13 {
        Some("stop")
    } else if cmd == 14 || cmd == 46 || cmd == 47 {
        Some("play-pause")
    } else {
        None
    }
}

/// The action of a media hotkey id.
pub fn hotkey_action(id: i32) -> (r: Option<&'static str>)
    ensures
        r == hotkey_action_spec(id),
{
    if id == ID_PLAYPAUSE {
        Some("play-pause")
    } else if id == ID_PREV {
        Some("prev")
    } else if id == ID_NEXT {
        Some("next")
    } else if id == ID_STOP {
        Some("stop")
    } else {
        None
    }
}

/// Routes a message of the hotkey window: a media hotkey goes to the built-in
/// player while the switch is on and to the external player while it is off.
pub fn route_hotkey(state: &MediaKeyState, msg: u32, id: i32) -> (r: HotkeyRoute)
    ensures
        r == if msg == WM_HOTKEY {
            match hotkey_action_spec(id) {
                Some(a) => if state.enabled {
                    HotkeyRoute::EmitControl(a)
                } else {
                    HotkeyRoute::ForwardExternal(a)
                },
                None => HotkeyRoute::Default,
            }
        } else {
            HotkeyRoute::Default
        },
{
    if msg == WM_HOTKEY {
        match hotkey_action(id) {
            Some(a) => if state.enabled {
                HotkeyRoute::EmitControl(a)
            } else {
                HotkeyRoute::ForwardExternal(a)
            },
            None => HotkeyRoute::Default,
        }
    } else {
        HotkeyRoute::Default
    }
}

/// The action the subclassed main window handles itself (and swallows); `None`
/// hands the message to the window procedure it replaced.
pub fn route_appcommand(state: &MediaKeyState, msg: u32, lparam: isize) -> (r: Option<&'static str>)
    ensures
        r == if msg == WM_APPCOMMAND && state.enabled {
            appcommand_action_spec(appcommand_cmd(lparam))
        } else {
            None
        },
{
    if msg == WM_APPCOMMAND && state.enabled {
        appcommand_action(lparam)
    } else {
        None
    }
}

/// Whether a control event may be sent to the front end.
pub fn emit_control_allowed(state: &MediaKeyState) -> (r: bool)
    ensures
        r == state.enabled,
{
    state.enabled
}

/// The number of successful registrations among the attempts.
pub open spec fn count_true(v: Seq<bool>) -> nat
    decreases v.len(),
{
    if v.len() == 0 {
        0
    } else {
        count_true(v.drop_last()) + if v.last() {
            1nat
        } else {
            0nat
        }
    }
}

/// Counts the media hotkeys that registered, and says whether some are held by
/// another program (fewer than all four).
pub fn registered_summary(results: &Vec<bool>) -> (r: (usize, bool))
    ensures
        r.0 == count_true(results@),
        r.1 == (count_true(results@) < MEDIA_HOTKEY_COUNT),
{
    let mut n: usize = 0;
    let mut i: usize = 0;
    while i < results.len()
        invariant
            i <= results.len(),
            n == count_true(results@.subrange(0, i as int)),
            n <= i,
        decreases results.len() - i,
    {
        let ghost pre = results@.subrange(0, i + 1);
        assert(pre.drop_last() =~= results@.subrange(0, i as int));
        if results[i] {
            n = n + 1;
        }
        i = i + 1;
    }
    assert(results@.subrange(0, results.len() as int) =~= results@);
    (n, n < MEDIA_HOTKEY_COUNT)
}

/// With the switch off no media key reaches the built-in player.
pub proof fn law_disabled_never_emits(state: MediaKeyState, msg: u32, id: i32, lparam: isize)
    requires
        !state.enabled,
    ensures
        !(if msg == WM_HOTKEY {
            match hotkey_action_spec(id) {
                Some(a) => if state.enabled {
                    HotkeyRoute::EmitControl(a)
                } else {
                    HotkeyRoute::ForwardExternal(a)
                },
                None => HotkeyRoute::Default,
            }
        } else {
            HotkeyRoute::Default
        } is EmitControl),
{
}

/// The top bit of the high word (`FAPPCOMMAND_MASK`'s key bit) does not change the command.
pub proof fn law_appcommand_ignores_top_bit(lparam: isize)
    ensures
        appcommand_cmd(lparam) == appcommand_cmd(lparam ^ (0x8000isize << 16u32)),
{
    assert(((((lparam >> 16u32) & 0xFFFFisize) as i32) & 0x7FFFi32) == (((((lparam ^ (0x8000isize
        << 16u32)) >> 16u32) & 0xFFFFisize) as i32) & 0x7FFFi32)) by (bit_vector);
}


/// A media key does the same whether it arrives as a registered hotkey or as
/// a `WM_APPCOMMAND`: next track, previous track, stop and play/pause map to
/// the actions of the matching hotkeys.  Among the commands, exactly the
/// previous-track command gives `prev` and exactly the next-track command
/// gives `next`, so the two never swap or merge.
pub proof fn law_appcommand_matches_hotkeys(lparam: isize)
    ensures
        appcommand_cmd(lparam) == 11 ==> appcommand_action_spec(appcommand_cmd(lparam)) == hotkey_action_spec(ID_NEXT),
        appcommand_cmd(lparam) == 12 ==> appcommand_action_spec(appcommand_cmd(lparam)) == hotkey_action_spec(ID_PREV),
        appcommand_cmd(lparam) == 13 ==> appcommand_action_spec(appcommand_cmd(lparam)) == hotkey_action_spec(ID_STOP),
        appcommand_cmd(lparam) == 14 ==> appcommand_action_spec(appcommand_cmd(lparam)) == hotkey_action_spec(ID_PLAYPAUSE),
        (appcommand_action_spec(appcommand_cmd(lparam)) matches Some(a) && a@ == "prev"@) <==> appcommand_cmd(lparam) == 12,
        (appcommand_action_spec(appcommand_cmd(lparam)) matches Some(a) && a@ == "next"@) <==> appcommand_cmd(lparam) == 11,
{
    reveal_strlit("prev");
    reveal_strlit("next");
    reveal_strlit("stop");
    reveal_strlit("play-pause");
    assert("next"@[0] != "prev"@[0] && "stop"@[0] != "prev"@[0] && "play-pause"@.len() != "prev"@.len());
    assert("stop"@[0] != "next"@[0] && "play-pause"@.len() != "next"@.len());
}

} // verus!
