//! Global hotkeys: which shortcut each feature uses, whether it is switched on,
//! and which registrations a change of settings calls for.
//!
//! The operating-system side (registering a shortcut, installing the mouse hook)
//! is left to the caller: every decision here returns the actions to perform.

use vstd::prelude::*;
use crate::settings::SettingValue;
use crate::text::{
    append_str, chars_of, contains_sub, has_prefix, has_sub, spec_to_lowercase, starts_with,
    str_to_lowercase, str_to_string, string_from_chars, trim, trim_vec, vec_eq,
};

verus! {

/// The features that own a global hotkey.
#[derive(Clone, Copy, PartialEq, Eq, Structural, Debug)]
pub enum HotkeySlot {
    Overlay,
    Crosshair,
    Filter,
    Autoclicker,
    MusicPrev,
    MusicNext,
    MusicPlayPause,
    LyricsBtnToggle,
}

/// The stored shortcut of one feature, its registration id and its own switch.
pub struct HotkeyEntry {
    pub shortcut: Option<String>,
    pub id: u32,
    pub enabled: bool,
}

/// All hotkey settings: the master switch and one entry per feature.
pub struct HotkeyState {
    pub master: bool,
    pub overlay: HotkeyEntry,
    pub crosshair: HotkeyEntry,
    pub filter: HotkeyEntry,
    pub autoclicker: HotkeyEntry,
    pub music_prev: HotkeyEntry,
    pub music_next: HotkeyEntry,
    pub music_playpause: HotkeyEntry,
    pub lyrics_btn_toggle: HotkeyEntry,
}

/// An operating-system action on a hotkey.
pub enum HotkeyAction {
    /// Register a keyboard shortcut.
    Register(String),
    /// Release a keyboard shortcut.
    Unregister(String),
    /// Hand a mouse-button shortcut to the low-level hook (`None` stops it).
    SetMouseHotkey(Option<String>),
}

/// The view of a [`HotkeyAction`].
pub enum ActionView {
    Register(Seq<char>),
    Unregister(Seq<char>),
    SetMouseHotkey(Option<Seq<char>>),
}

impl HotkeyAction {
    pub open spec fn view(self) -> ActionView {
        match self {
            HotkeyAction::Register(s) => ActionView::Register(s@),
            HotkeyAction::Unregister(s) => ActionView::Unregister(s@),
            HotkeyAction::SetMouseHotkey(o) => ActionView::SetMouseHotkey(
                match o {
                    Some(s) => Some(s@),
                    None => None,
                },
            ),
        }
    }
}

/// The views of a sequence of actions.
pub open spec fn actions_view(v: Seq<HotkeyAction>) -> Seq<ActionView> {
    Seq::new(v.len(), |i: int| v[i].view())
}

/// The view of an optional action.
pub open spec fn opt_action_view(o: Option<HotkeyAction>) -> Option<ActionView> {
    match o {
        Some(a) => Some(a.view()),
        None => None,
    }
}

/// An optional action as a sequence of zero or one actions.
pub open spec fn opt_seq(o: Option<ActionView>) -> Seq<ActionView> {
    match o {
        Some(a) => seq![a],
        None => Seq::empty(),
    }
}

/// How the shortcut text parsed as a key combination.
#[derive(Clone, Copy, PartialEq, Eq, Structural, Debug)]
pub enum ShortcutParse {
    /// Not a key combination.
    Invalid,
    /// A key combination without Ctrl, Alt, Shift or Win.
    NoModifiers,
    /// A key combination with at least one modifier.
    WithModifiers,
}

/// Why registering a new shortcut failed: how its text parsed and what the system said.
pub struct RegisterFailure {
    pub parse: ShortcutParse,
    pub message: String,
}

/// The first step of changing a shortcut.
pub enum UpdateStep {
    /// The new shortcut equals the stored one: nothing to do.
    Unchanged,
    /// Perform `release` in order, then register `register` if there is one, then
    /// report the outcome to [`update_finish`].
    Perform { release: Vec<HotkeyAction>, register: Option<String> },
}

/// The view of an [`UpdateStep`].
pub enum UpdateStepView {
    Unchanged,
    Perform(Seq<ActionView>, Option<Seq<char>>),
}

impl UpdateStep {
    pub open spec fn view(self) -> UpdateStepView {
        match self {
            UpdateStep::Unchanged => UpdateStepView::Unchanged,
            UpdateStep::Perform { release, register } => UpdateStepView::Perform(
                actions_view(release@),
                match register {
                    Some(s) => Some(s@),
                    None => None,
                },
            ),
        }
    }
}

/// The slots in the order the key handler and the clean-up walk them.
pub open spec fn slot_order() -> Seq<HotkeySlot> {
    seq![
        HotkeySlot::Overlay,
        HotkeySlot::Crosshair,
        HotkeySlot::Filter,
        HotkeySlot::Autoclicker,
        HotkeySlot::MusicPrev,
        HotkeySlot::MusicNext,
        HotkeySlot::MusicPlayPause,
        HotkeySlot::LyricsBtnToggle,
    ]
}

impl HotkeyState {
    pub open spec fn entry(self, slot: HotkeySlot) -> HotkeyEntry {
        match slot {
            HotkeySlot::Overlay => self.overlay,
            HotkeySlot::Crosshair => self.crosshair,
            HotkeySlot::Filter => self.filter,
            HotkeySlot::Autoclicker => self.autoclicker,
            HotkeySlot::MusicPrev => self.music_prev,
            HotkeySlot::MusicNext => self.music_next,
            HotkeySlot::MusicPlayPause => self.music_playpause,
            HotkeySlot::LyricsBtnToggle => self.lyrics_btn_toggle,
        }
    }

    /// The stored shortcut text, if one was ever stored.
    pub open spec fn stored_of(self, slot: HotkeySlot) -> Option<Seq<char>> {
        match self.entry(slot).shortcut {
            Some(s) => Some(s@),
            None => None,
        }
    }

    /// The shortcut text, empty when none was stored (`unwrap_or_default`).
    pub open spec fn shortcut_of(self, slot: HotkeySlot) -> Seq<char> {
        match self.stored_of(slot) {
            Some(s) => s,
            None => Seq::empty(),
        }
    }

    pub open spec fn id_of(self, slot: HotkeySlot) -> u32 {
        self.entry(slot).id
    }

    pub open spec fn enabled_of(self, slot: HotkeySlot) -> bool {
        self.entry(slot).enabled
    }

    /// The shortcut is in force: master switch and feature switch are both on.
    pub open spec fn effective(self, slot: HotkeySlot) -> bool {
        self.master && self.enabled_of(slot)
    }

    /// The entry is the settings' initial one.
    pub open spec fn is_initial(self) -> bool {
        &&& self.master
        &&& forall|s: HotkeySlot| {
            &&& #[trigger] self.stored_of(s) is None
            &&& self.id_of(s) == 0
            &&& self.enabled_of(s) == (s != HotkeySlot::Autoclicker)
        }
    }

    /// A fresh state: master switch on, every feature switched on except the
    /// auto-clicker, no shortcut stored yet.
    pub fn new() -> (r: HotkeyState)
        ensures
            r.is_initial(),
    {
        HotkeyState {
            master: true,
            overlay: HotkeyEntry { shortcut: None, id: 0, enabled: true },
            crosshair: HotkeyEntry { shortcut: None, id: 0, enabled: true },
            filter: HotkeyEntry { shortcut: None, id: 0, enabled: true },
            autoclicker: HotkeyEntry { shortcut: None, id: 0, enabled: false },
            music_prev: HotkeyEntry { shortcut: None, id: 0, enabled: true },
            music_next: HotkeyEntry { shortcut: None, id: 0, enabled: true },
            music_playpause: HotkeyEntry { shortcut: None, id: 0, enabled: true },
            lyrics_btn_toggle: HotkeyEntry { shortcut: None, id: 0, enabled: true },
        }
    }

    fn entry_ref(&self, slot: HotkeySlot) -> (r: &HotkeyEntry)
        ensures
            *r == self.entry(slot),
    {
        match slot {
            HotkeySlot::Overlay => &self.overlay,
            HotkeySlot::Crosshair => &self.crosshair,
            HotkeySlot::Filter => &self.filter,
            HotkeySlot::Autoclicker => &self.autoclicker,
            HotkeySlot::MusicPrev => &self.music_prev,
            HotkeySlot::MusicNext => &self.music_next,
            HotkeySlot::MusicPlayPause => &self.music_playpause,
            HotkeySlot::LyricsBtnToggle => &self.lyrics_btn_toggle,
        }
    }

    fn put_entry(&mut self, slot: HotkeySlot, e: HotkeyEntry)
        ensures
            final(self).entry(slot) == e,
            final(self).master == old(self).master,
            forall|s: HotkeySlot| s != slot ==> #[trigger] final(self).entry(s) == old(self).entry(s),
    {
        match slot {
            HotkeySlot::Overlay => self.overlay = e,
            HotkeySlot::Crosshair => self.crosshair = e,
            HotkeySlot::Filter => self.filter = e,
            HotkeySlot::Autoclicker => self.autoclicker = e,
            HotkeySlot::MusicPrev => self.music_prev = e,
            HotkeySlot::MusicNext => self.music_next = e,
            HotkeySlot::MusicPlayPause => self.music_playpause = e,
            HotkeySlot::LyricsBtnToggle => self.lyrics_btn_toggle = e,
        }
    }
}

/// `new` differs from `old` only in the stored shortcut of `slot`, which is `s`,
/// and in its id, which is the parsed id where the text parsed.
pub open spec fn set_shortcut_rel(
    old: HotkeyState,
    new: HotkeyState,
    slot: HotkeySlot,
    s: Seq<char>,
    parsed_id: Option<u32>,
) -> bool {
    &&& new.stored_of(slot) == Some(s)
    &&& new.id_of(slot) == match parsed_id {
        Some(i) => i,
        None => old.id_of(slot),
    }
    &&& new.enabled_of(slot) == old.enabled_of(slot)
    &&& new.master == old.master
    &&& forall|o: HotkeySlot| o != slot ==> #[trigger] new.entry(o) == old.entry(o)
}

/// A shortcut handled by the low-level mouse hook rather than the keyboard registry.
pub open spec fn is_mouse(s: Seq<char>) -> bool {
    has_prefix(s, "Mouse"@)
}

/// The action `apply_single_hotkey` calls for.
pub open spec fn apply_single_spec(master: bool, shortcut: Seq<char>, feature_enabled: bool) -> Option<ActionView> {
    if shortcut.len() == 0 {
        None
    } else if is_mouse(shortcut) {
        Some(ActionView::SetMouseHotkey(if master && feature_enabled { Some(shortcut) } else { None }))
    } else if master && feature_enabled {
        Some(ActionView::Register(shortcut))
    } else {
        Some(ActionView::Unregister(shortcut))
    }
}

/// The action that releasing one slot calls for when the master switch goes off.
pub open spec fn release_spec(shortcut: Seq<char>) -> Option<ActionView> {
    if shortcut.len() == 0 {
        None
    } else if is_mouse(shortcut) {
        Some(ActionView::SetMouseHotkey(None))
    } else {
        Some(ActionView::Unregister(shortcut))
    }
}

/// One slot's contribution to `apply_hotkeys_enabled`.
pub open spec fn apply_slot_spec(state: HotkeyState, slot: HotkeySlot, enabled: bool) -> Seq<ActionView> {
    if enabled {
        opt_seq(apply_single_spec(state.master, state.shortcut_of(slot), state.enabled_of(slot)))
    } else {
        opt_seq(release_spec(state.shortcut_of(slot)))
    }
}

/// The actions `apply_hotkeys_enabled` calls for, slot by slot in [`slot_order`].
pub open spec fn apply_all_spec(state: HotkeyState, enabled: bool) -> Seq<ActionView> {
    apply_slot_spec(state, HotkeySlot::Overlay, enabled)
        + apply_slot_spec(state, HotkeySlot::Crosshair, enabled)
        + apply_slot_spec(state, HotkeySlot::Filter, enabled)
        + apply_slot_spec(state, HotkeySlot::Autoclicker, enabled)
        + apply_slot_spec(state, HotkeySlot::MusicPrev, enabled)
        + apply_slot_spec(state, HotkeySlot::MusicNext, enabled)
        + apply_slot_spec(state, HotkeySlot::MusicPlayPause, enabled)
        + apply_slot_spec(state, HotkeySlot::LyricsBtnToggle, enabled)
}

/// One slot's contribution to the clean-up at exit.
pub open spec fn cleanup_slot_spec(state: HotkeySlot, shortcut: Seq<char>) -> Seq<ActionView> {
    if shortcut.len() == 0 || (state == HotkeySlot::Autoclicker && is_mouse(shortcut)) {
        Seq::empty()
    } else {
        seq![ActionView::Unregister(shortcut)]
    }
}

/// The actions the clean-up at exit calls for.
pub open spec fn cleanup_spec(state: HotkeyState) -> Seq<ActionView> {
    cleanup_slot_spec(HotkeySlot::Overlay, state.shortcut_of(HotkeySlot::Overlay))
        + cleanup_slot_spec(HotkeySlot::Crosshair, state.shortcut_of(HotkeySlot::Crosshair))
        + cleanup_slot_spec(HotkeySlot::Filter, state.shortcut_of(HotkeySlot::Filter))
        + cleanup_slot_spec(HotkeySlot::Autoclicker, state.shortcut_of(HotkeySlot::Autoclicker))
        + cleanup_slot_spec(HotkeySlot::MusicPrev, state.shortcut_of(HotkeySlot::MusicPrev))
        + cleanup_slot_spec(HotkeySlot::MusicNext, state.shortcut_of(HotkeySlot::MusicNext))
        + cleanup_slot_spec(HotkeySlot::MusicPlayPause, state.shortcut_of(HotkeySlot::MusicPlayPause))
        + cleanup_slot_spec(HotkeySlot::LyricsBtnToggle, state.shortcut_of(HotkeySlot::LyricsBtnToggle))
}

/// The slot whose shortcut a key press with registration id `id` belongs to.
pub open spec fn dispatch_spec(state: HotkeyState, id: u32) -> Option<HotkeySlot> {
    if !state.master {
        None
    } else if state.id_of(HotkeySlot::Overlay) == id {
        Some(HotkeySlot::Overlay)
    } else if state.id_of(HotkeySlot::Crosshair) == id {
        Some(HotkeySlot::Crosshair)
    } else if state.id_of(HotkeySlot::Filter) == id {
        Some(HotkeySlot::Filter)
    } else if state.id_of(HotkeySlot::Autoclicker) == id {
        Some(HotkeySlot::Autoclicker)
    } else if state.id_of(HotkeySlot::MusicPrev) == id {
        Some(HotkeySlot::MusicPrev)
    } else if state.id_of(HotkeySlot::MusicNext) == id {
        Some(HotkeySlot::MusicNext)
    } else if state.id_of(HotkeySlot::MusicPlayPause) == id {
        Some(HotkeySlot::MusicPlayPause)
    } else if state.id_of(HotkeySlot::LyricsBtnToggle) == id {
        Some(HotkeySlot::LyricsBtnToggle)
    } else {
        None
    }
}

/// The registration that storing a shortcut at start-up calls for.
pub open spec fn init_action_spec(old: HotkeyState, slot: HotkeySlot, shortcut: Seq<char>) -> Option<ActionView> {
    if !old.enabled_of(slot) {
        None
    } else if slot == HotkeySlot::LyricsBtnToggle && shortcut.len() == 0 {
        None
    } else if slot == HotkeySlot::Autoclicker && is_mouse(shortcut) {
        Some(ActionView::SetMouseHotkey(Some(shortcut)))
    } else {
        Some(ActionView::Register(shortcut))
    }
}

/// The first step of changing the shortcut of `slot` to `new`.  The new
/// shortcut is taken up (registered, or handed to the mouse hook) only while
/// the shortcut is in force, master switch and feature switch both on; else
/// it is only stored.
pub open spec fn update_begin_spec(state: HotkeyState, slot: HotkeySlot, new: Seq<char>) -> UpdateStepView {
    let old = state.shortcut_of(slot);
    let live = state.effective(slot);
    if old == new {
        UpdateStepView::Unchanged
    } else if slot == HotkeySlot::Autoclicker {
        UpdateStepView::Perform(
            (if old.len() > 0 && !is_mouse(old) { seq![ActionView::Unregister(old)] } else { Seq::empty() })
                + seq![ActionView::SetMouseHotkey(if live && is_mouse(new) { Some(new) } else { None })],
            if live && !is_mouse(new) && new.len() > 0 { Some(new) } else { None },
        )
    } else {
        UpdateStepView::Perform(
            if old.len() > 0 { seq![ActionView::Unregister(old)] } else { Seq::empty() },
            if live && new.len() > 0 { Some(new) } else { None },
        )
    }
}

/// What re-establishes the old shortcut after registering the new one failed.
pub open spec fn rollback_spec(state: HotkeyState, slot: HotkeySlot) -> Seq<ActionView> {
    let old = state.shortcut_of(slot);
    if old.len() == 0 {
        Seq::empty()
    } else if slot == HotkeySlot::Autoclicker && is_mouse(old) {
        seq![ActionView::SetMouseHotkey(Some(old))]
    } else {
        seq![ActionView::Register(old)]
    }
}

/// The user-facing explanation of a failed registration.
pub open spec fn register_error_text(
    action: Seq<char>,
    shortcut: Seq<char>,
    parse: ShortcutParse,
    err: Seq<char>,
) -> Seq<char> {
    if !is_mouse(shortcut) && parse == ShortcutParse::NoModifiers {
        action + "失败：快捷键必须包含 Ctrl、Alt、Shift 或 Win 修饰键，请重新录制"@
    } else if !is_mouse(shortcut) && parse == ShortcutParse::Invalid {
        action + "失败：快捷键格式无效，请重新录制"@
    } else if has_sub(spec_to_lowercase(err), "already registered"@) || has_sub(
        spec_to_lowercase(err),
        "in use"@,
    ) {
        action + "失败：该快捷键已被其他程序占用，请更换组合键"@
    } else {
        action + "失败："@ + err
    }
}

/// The label of a feature in registration messages.
pub open spec fn slot_label(slot: HotkeySlot) -> Seq<char> {
    match slot {
        HotkeySlot::Overlay => "注册悬浮框热键"@,
        HotkeySlot::Crosshair => "注册准心热键"@,
        HotkeySlot::Filter => "注册滤镜热键"@,
        HotkeySlot::Autoclicker => "注册连点器热键"@,
        HotkeySlot::MusicPrev => "注册上一曲热键"@,
        HotkeySlot::MusicNext => "注册下一曲热键"@,
        HotkeySlot::MusicPlayPause => "注册播放/暂停热键"@,
        HotkeySlot::LyricsBtnToggle => "注册解锁按钮热键"@,
    }
}

/// The shortcut the loader falls back to when nothing usable was saved.
pub open spec fn saved_hotkey_spec(saved: Option<SettingValue>, default: Seq<char>) -> Seq<char> {
    match saved {
        Some(SettingValue::Str(s)) => if trim(s@).len() > 0 { s@ } else { default },
        _ => default,
    }
}

// ───────────────────────── executable functions ─────────────────────────

/// Switches all hotkeys on or off (the master switch).
pub fn set_hotkeys_enabled(state: &mut HotkeyState, enabled: bool)
    ensures
        final(state).master == enabled,
        forall|s: HotkeySlot| #[trigger] final(state).entry(s) == old(state).entry(s),
{
    state.master = enabled;
}

/// The master switch.
pub fn is_hotkeys_enabled(state: &HotkeyState) -> (r: bool)
    ensures
        r == state.master,
{
    state.master
}

/// The switch of one feature's hotkey.
pub fn is_feature_enabled(state: &HotkeyState, slot: HotkeySlot) -> (r: bool)
    ensures
        r == state.enabled_of(slot),
{
    state.entry_ref(slot).enabled
}

/// Sets the switch of one feature's hotkey.
pub fn set_feature_enabled(state: &mut HotkeyState, slot: HotkeySlot, enabled: bool)
    ensures
        final(state).enabled_of(slot) == enabled,
        final(state).stored_of(slot) == old(state).stored_of(slot),
        final(state).id_of(slot) == old(state).id_of(slot),
        final(state).master == old(state).master,
        forall|o: HotkeySlot| o != slot ==> #[trigger] final(state).entry(o) == old(state).entry(o),
{
    let e = state.entry_ref(slot);
    let shortcut = match &e.shortcut {
        Some(s) => Some(s.clone()),
        None => None,
    };
    let ne = HotkeyEntry { shortcut, id: e.id, enabled };
    state.put_entry(slot, ne);
}

/// The shortcut text of a feature (empty when none was stored).
pub fn get_shortcut(state: &HotkeyState, slot: HotkeySlot) -> (r: String)
    ensures
        r@ == state.shortcut_of(slot),
{
    match &state.entry_ref(slot).shortcut {
        Some(s) => s.clone(),
        None => String::new(),
    }
}

/// The registration id of a feature's shortcut.
pub fn get_shortcut_id(state: &HotkeyState, slot: HotkeySlot) -> (r: u32)
    ensures
        r == state.id_of(slot),
{
    state.entry_ref(slot).id
}

/// Stores a feature's shortcut; its id changes only where the text parsed
/// (`parsed_id` is the id of the parsed key combination).
pub fn set_shortcut(state: &mut HotkeyState, slot: HotkeySlot, shortcut: &str, parsed_id: Option<u32>)
    ensures
        set_shortcut_rel(*old(state), *final(state), slot, shortcut@, parsed_id),
{
    let e = state.entry_ref(slot);
    let id = match parsed_id {
        Some(i) => i,
        None => e.id,
    };
    let ne = HotkeyEntry { shortcut: Some(str_to_string(shortcut)), id, enabled: e.enabled };
    state.put_entry(slot, ne);
}

/// Mouse-button shortcuts (`Mouse…`) go to the low-level hook, not the keyboard registry.
pub fn is_mouse_key(shortcut: &str) -> (r: bool)
    ensures
        r == is_mouse(shortcut@),
{
    let s = chars_of(shortcut);
    let p = chars_of("Mouse");
    starts_with(&s, &p)
}

fn is_mouse_chars(s: &Vec<char>) -> (r: bool)
    ensures
        r == is_mouse(s@),
{
    let p = chars_of("Mouse");
    starts_with(s, &p)
}

/// The action that bringing one shortcut in line with the switches calls for:
/// register it when master and feature switch are on, release it otherwise.
pub fn apply_single_hotkey(state: &HotkeyState, shortcut: &str, feature_enabled: bool) -> (r: Option<HotkeyAction>)
    ensures
        opt_action_view(r) == apply_single_spec(state.master, shortcut@, feature_enabled),
{
    let s = chars_of(shortcut);
    apply_single_chars(state.master, &s, feature_enabled)
}

fn apply_single_chars(master: bool, s: &Vec<char>, feature_enabled: bool) -> (r: Option<HotkeyAction>)
    ensures
        opt_action_view(r) == apply_single_spec(master, s@, feature_enabled),
{
    if s.len() == 0 {
        return None;
    }
    let effective = master && feature_enabled;
    if is_mouse_chars(s) {
        if effective {
            Some(HotkeyAction::SetMouseHotkey(Some(string_from_chars(s))))
        } else {
            Some(HotkeyAction::SetMouseHotkey(None))
        }
    } else if effective {
        Some(HotkeyAction::Register(string_from_chars(s)))
    } else {
        Some(HotkeyAction::Unregister(string_from_chars(s)))
    }
}

fn release_chars(s: &Vec<char>) -> (r: Option<HotkeyAction>)
    ensures
        opt_action_view(r) == release_spec(s@),
{
    if s.len() == 0 {
        None
    } else if is_mouse_chars(s) {
        Some(HotkeyAction::SetMouseHotkey(None))
    } else {
        Some(HotkeyAction::Unregister(string_from_chars(s)))
    }
}

fn push_opt(v: &mut Vec<HotkeyAction>, o: Option<HotkeyAction>)
    ensures
        actions_view(final(v)@) == actions_view(old(v)@) + opt_seq(opt_action_view(o)),
{
    match o {
        Some(a) => {
            v.push(a);
            assert(actions_view(v@) =~= actions_view(old(v)@) + opt_seq(opt_action_view(o)));
        },
        None => {
            assert(actions_view(v@) =~= actions_view(old(v)@) + opt_seq(opt_action_view(o)));
        },
    }
}

fn apply_slot(state: &HotkeyState, slot: HotkeySlot, enabled: bool, v: &mut Vec<HotkeyAction>)
    ensures
        actions_view(final(v)@) == actions_view(old(v)@) + apply_slot_spec(*state, slot, enabled),
{
    let s = get_shortcut(state, slot);
    let c = chars_of(s.as_str());
    if enabled {
        let f = is_feature_enabled(state, slot);
        push_opt(v, apply_single_chars(state.master, &c, f));
    } else {
        push_opt(v, release_chars(&c));
    }
}

/// The actions that bring every hotkey in line with the master switch: when it goes
/// off every stored shortcut is released (so the keys reach other programs again);
/// when it goes on each is registered or released by its own switch.
pub fn apply_hotkeys_enabled(state: &HotkeyState, enabled: bool) -> (r: Vec<HotkeyAction>)
    ensures
        actions_view(r@) == apply_all_spec(*state, enabled),
{
    let mut v: Vec<HotkeyAction> = Vec::new();
    assert(actions_view(v@) =~= Seq::<ActionView>::empty());
    apply_slot(state, HotkeySlot::Overlay, enabled, &mut v);
    apply_slot(state, HotkeySlot::Crosshair, enabled, &mut v);
    apply_slot(state, HotkeySlot::Filter, enabled, &mut v);
    apply_slot(state, HotkeySlot::Autoclicker, enabled, &mut v);
    apply_slot(state, HotkeySlot::MusicPrev, enabled, &mut v);
    apply_slot(state, HotkeySlot::MusicNext, enabled, &mut v);
    apply_slot(state, HotkeySlot::MusicPlayPause, enabled, &mut v);
    apply_slot(state, HotkeySlot::LyricsBtnToggle, enabled, &mut v);
    assert(actions_view(v@) =~= apply_all_spec(*state, enabled));
    v
}

/// Switches the master switch and returns the actions that follow from it.
pub fn set_hotkeys_enabled_cmd(state: &mut HotkeyState, enabled: bool) -> (r: Vec<HotkeyAction>)
    ensures
        final(state).master == enabled,
        forall|s: HotkeySlot| #[trigger] final(state).entry(s) == old(state).entry(s),
        actions_view(r@) == apply_all_spec(*final(state), enabled),
{
    set_hotkeys_enabled(state, enabled);
    apply_hotkeys_enabled(state, enabled)
}

/// Sets one feature's switch; while the master switch is on, its shortcut is
/// registered or released accordingly.
pub fn set_feature_hotkey_enabled(state: &mut HotkeyState, slot: HotkeySlot, enabled: bool) -> (r: Option<HotkeyAction>)
    ensures
        final(state).enabled_of(slot) == enabled,
        final(state).stored_of(slot) == old(state).stored_of(slot),
        final(state).id_of(slot) == old(state).id_of(slot),
        final(state).master == old(state).master,
        forall|o: HotkeySlot| o != slot ==> #[trigger] final(state).entry(o) == old(state).entry(o),
        opt_action_view(r) == if old(state).master {
            apply_single_spec(true, old(state).shortcut_of(slot), enabled)
        } else {
            None
        },
{
    set_feature_enabled(state, slot, enabled);
    if state.master {
        let s = get_shortcut(state, slot);
        let c = chars_of(s.as_str());
        apply_single_chars(true, &c, enabled)
    } else {
        None
    }
}

/// Stores a feature's shortcut at start-up and returns the registration it calls
/// for (none while the feature is switched off).
pub fn init_hotkey(state: &mut HotkeyState, slot: HotkeySlot, shortcut: &str, parsed_id: Option<u32>) -> (r: Option<HotkeyAction>)
    ensures
        set_shortcut_rel(*old(state), *final(state), slot, shortcut@, parsed_id),
        opt_action_view(r) == init_action_spec(*old(state), slot, shortcut@),
{
    let enabled = is_feature_enabled(state, slot);
    set_shortcut(state, slot, shortcut, parsed_id);
    if !enabled {
        return None;
    }
    let s = chars_of(shortcut);
    if slot == HotkeySlot::LyricsBtnToggle && s.len() == 0 {
        return None;
    }
    if slot == HotkeySlot::Autoclicker && is_mouse_chars(&s) {
        return Some(HotkeyAction::SetMouseHotkey(Some(string_from_chars(&s))));
    }
    Some(HotkeyAction::Register(string_from_chars(&s)))
}

/// The first step of changing a feature's shortcut: what to release and what to register.
pub fn update_begin(state: &HotkeyState, slot: HotkeySlot, new_shortcut: &str) -> (r: UpdateStep)
    ensures
        r.view() == update_begin_spec(*state, slot, new_shortcut@),
{
    let old_s = get_shortcut(state, slot);
    let old = chars_of(old_s.as_str());
    let new = chars_of(new_shortcut);
    if vec_eq(&old, &new) {
        return UpdateStep::Unchanged;
    }
    let mut release: Vec<HotkeyAction> = Vec::new();
    let new_is_mouse = is_mouse_chars(&new);
    let live = state.master && is_feature_enabled(state, slot);
    if slot == HotkeySlot::Autoclicker {
        if old.len() > 0 && !is_mouse_chars(&old) {
            release.push(HotkeyAction::Unregister(string_from_chars(&old)));
        }
        if live && new_is_mouse {
            release.push(HotkeyAction::SetMouseHotkey(Some(string_from_chars(&new))));
        } else {
            release.push(HotkeyAction::SetMouseHotkey(None));
        }
        let register = if live && !new_is_mouse && new.len() > 0 {
            Some(string_from_chars(&new))
        } else {
            None
        };
        assert(actions_view(release@) =~= (if old@.len() > 0 && !is_mouse(old@) {
            seq![ActionView::Unregister(old@)]
        } else {
            Seq::empty()
        }) + seq![ActionView::SetMouseHotkey(if live && is_mouse(new@) { Some(new@) } else { None })]);
        let r = UpdateStep::Perform { release, register };
        assert(r.view() == update_begin_spec(*state, slot, new_shortcut@));
        r
    } else {
        if old.len() > 0 {
            release.push(HotkeyAction::Unregister(string_from_chars(&old)));
        }
        let register = if live && new.len() > 0 {
            Some(string_from_chars(&new))
        } else {
            None
        };
        assert(actions_view(release@) =~= if old@.len() > 0 {
            seq![ActionView::Unregister(old@)]
        } else {
            Seq::empty()
        });
        let r = UpdateStep::Perform { release, register };
        assert(r.view() == update_begin_spec(*state, slot, new_shortcut@));
        r
    }
}

/// The label of a feature in registration messages.
pub fn slot_register_label(slot: HotkeySlot) -> (r: &'static str)
    ensures
        r@ == slot_label(slot),
{
    match slot {
        HotkeySlot::Overlay => "注册悬浮框热键",
        HotkeySlot::Crosshair => "注册准心热键",
        HotkeySlot::Filter => "注册滤镜热键",
        HotkeySlot::Autoclicker => "注册连点器热键",
        HotkeySlot::MusicPrev => "注册上一曲热键",
        HotkeySlot::MusicNext => "注册下一曲热键",
        HotkeySlot::MusicPlayPause => "注册播放/暂停热键",
        HotkeySlot::LyricsBtnToggle => "注册解锁按钮热键",
    }
}

/// The message of a failed registration at start-up: label, `失败: ` and the system's text.
pub fn init_register_error(slot: HotkeySlot, err: &str) -> (r: String)
    ensures
        r@ == slot_label(slot) + "失败: "@ + err@,
{
    let mut v = chars_of(slot_register_label(slot));
    append_str(&mut v, "失败: ");
    append_str(&mut v, err);
    string_from_chars(&v)
}

/// Turns a failed registration into a specific message: a missing modifier or an
/// invalid text first, then "taken by another program", else the system's text.
pub fn hotkey_register_error(action: &str, shortcut: &str, parse: ShortcutParse, err: &str) -> (r: String)
    ensures
        r@ == register_error_text(action@, shortcut@, parse, err@),
{
    let mut v = chars_of(action);
    let mouse = is_mouse_key(shortcut);
    if !mouse && parse == ShortcutParse::NoModifiers {
        append_str(&mut v, "失败：快捷键必须包含 Ctrl、Alt、Shift 或 Win 修饰键，请重新录制");
        return string_from_chars(&v);
    }
    if !mouse && parse == ShortcutParse::Invalid {
        append_str(&mut v, "失败：快捷键格式无效，请重新录制");
        return string_from_chars(&v);
    }
    let lower_s = str_to_lowercase(err);
    let lower = chars_of(lower_s.as_str());
    let p1 = chars_of("already registered");
    let p2 = chars_of("in use");
    if contains_sub(&lower, &p1) || contains_sub(&lower, &p2) {
        append_str(&mut v, "失败：该快捷键已被其他程序占用，请更换组合键");
    } else {
        append_str(&mut v, "失败：");
        append_str(&mut v, err);
    }
    string_from_chars(&v)
}

/// The second step of changing a feature's shortcut.  With no failure the new
/// shortcut is stored; after a failed registration the state stays as it was and
/// the actions that restore the old shortcut come back with the error message.
pub fn update_finish(
    state: &mut HotkeyState,
    slot: HotkeySlot,
    new_shortcut: &str,
    parsed_id: Option<u32>,
    failure: Option<RegisterFailure>,
) -> (r: (Result<(), String>, Vec<HotkeyAction>))
    ensures
        match failure {
            None => {
                &&& set_shortcut_rel(*old(state), *final(state), slot, new_shortcut@, parsed_id)
                &&& r.0 is Ok
                &&& r.1@.len() == 0
            },
            Some(f) => {
                &&& *final(state) == *old(state)
                &&& match r.0 {
                    Ok(_) => false,
                    Err(e) => e@ == register_error_text(slot_label(slot), new_shortcut@, f.parse, f.message@),
                }
                &&& actions_view(r.1@) == rollback_spec(*old(state), slot)
            },
        },
{
    match failure {
        None => {
            set_shortcut(state, slot, new_shortcut, parsed_id);
            (Ok(()), Vec::new())
        },
        Some(f) => {
            let old_s = get_shortcut(state, slot);
            let old = chars_of(old_s.as_str());
            let mut v: Vec<HotkeyAction> = Vec::new();
            if old.len() > 0 {
                if slot == HotkeySlot::Autoclicker && is_mouse_chars(&old) {
                    v.push(HotkeyAction::SetMouseHotkey(Some(string_from_chars(&old))));
                } else {
                    v.push(HotkeyAction::Register(string_from_chars(&old)));
                }
            }
            assert(actions_view(v@) =~= rollback_spec(*state, slot));
            let msg = hotkey_register_error(
                slot_register_label(slot),
                new_shortcut,
                f.parse,
                f.message.as_str(),
            );
            (Err(msg), v)
        },
    }
}

fn cleanup_slot(state: &HotkeyState, slot: HotkeySlot, v: &mut Vec<HotkeyAction>)
    ensures
        actions_view(final(v)@) == actions_view(old(v)@) + cleanup_slot_spec(slot, state.shortcut_of(slot)),
{
    let s = get_shortcut(state, slot);
    let c = chars_of(s.as_str());
    if c.len() == 0 || (slot == HotkeySlot::Autoclicker && is_mouse_chars(&c)) {
        assert(actions_view(v@) =~= actions_view(old(v)@) + cleanup_slot_spec(slot, state.shortcut_of(slot)));
    } else {
        v.push(HotkeyAction::Unregister(string_from_chars(&c)));
        assert(actions_view(v@) =~= actions_view(old(v)@) + cleanup_slot_spec(slot, state.shortcut_of(slot)));
    }
}

/// The releases to perform at exit: every stored keyboard shortcut (the mouse hook
/// of the auto-clicker is stopped elsewhere).
pub fn cleanup(state: &HotkeyState) -> (r: Vec<HotkeyAction>)
    ensures
        actions_view(r@) == cleanup_spec(*state),
{
    let mut v: Vec<HotkeyAction> = Vec::new();
    assert(actions_view(v@) =~= Seq::<ActionView>::empty());
    cleanup_slot(state, HotkeySlot::Overlay, &mut v);
    cleanup_slot(state, HotkeySlot::Crosshair, &mut v);
    cleanup_slot(state, HotkeySlot::Filter, &mut v);
    cleanup_slot(state, HotkeySlot::Autoclicker, &mut v);
    cleanup_slot(state, HotkeySlot::MusicPrev, &mut v);
    cleanup_slot(state, HotkeySlot::MusicNext, &mut v);
    cleanup_slot(state, HotkeySlot::MusicPlayPause, &mut v);
    cleanup_slot(state, HotkeySlot::LyricsBtnToggle, &mut v);
    assert(actions_view(v@) =~= cleanup_spec(*state));
    v
}

/// The feature a pressed shortcut (by registration id) belongs to; nothing while
/// the master switch is off.  Slots are tried in [`slot_order`].
pub fn dispatch_shortcut(state: &HotkeyState, id: u32) -> (r: Option<HotkeySlot>)
    ensures
        r == dispatch_spec(*state, id),
{
    if !state.master {
        None
    } else if state.overlay.id == id {
        Some(HotkeySlot::Overlay)
    } else if state.crosshair.id == id {
        Some(HotkeySlot::Crosshair)
    } else if state.filter.id == id {
        Some(HotkeySlot::Filter)
    } else if state.autoclicker.id == id {
        Some(HotkeySlot::Autoclicker)
    } else if state.music_prev.id == id {
        Some(HotkeySlot::MusicPrev)
    } else if state.music_next.id == id {
        Some(HotkeySlot::MusicNext)
    } else if state.music_playpause.id == id {
        Some(HotkeySlot::MusicPlayPause)
    } else if state.lyrics_btn_toggle.id == id {
        Some(HotkeySlot::LyricsBtnToggle)
    } else {
        None
    }
}

/// The music action a music hotkey triggers (`prev`, `next`, `play-pause`).
pub fn music_action_for(slot: HotkeySlot) -> (r: Option<&'static str>)
    ensures
        match slot {
            HotkeySlot::MusicPrev => r == Some("prev"),
            HotkeySlot::MusicNext => r == Some("next"),
            HotkeySlot::MusicPlayPause => r == Some("play-pause"),
            _ => r is None,
        },
{
    match slot {
        HotkeySlot::MusicPrev => Some("prev"),
        HotkeySlot::MusicNext => Some("next"),
        HotkeySlot::MusicPlayPause => Some("play-pause"),
        _ => None,
    }
}

/// The `settings.json` key of a feature's shortcut.
pub fn hotkey_setting_key(slot: HotkeySlot) -> (r: &'static str)
    ensures
        r@ == match slot {
            HotkeySlot::Overlay => "overlay-hotkey"@,
            HotkeySlot::Crosshair => "crosshair-hotkey"@,
            HotkeySlot::Filter => "filter-hotkey"@,
            HotkeySlot::Autoclicker => "autoclicker-hotkey"@,
            HotkeySlot::MusicPrev => "music-prev-hotkey"@,
            HotkeySlot::MusicNext => "music-next-hotkey"@,
            HotkeySlot::MusicPlayPause => "music-playpause-hotkey"@,
            HotkeySlot::LyricsBtnToggle => "lyrics-btn-hotkey"@,
        },
{
    match slot {
        HotkeySlot::Overlay => "overlay-hotkey",
        HotkeySlot::Crosshair => "crosshair-hotkey",
        HotkeySlot::Filter => "filter-hotkey",
        HotkeySlot::Autoclicker => "autoclicker-hotkey",
        HotkeySlot::MusicPrev => "music-prev-hotkey",
        HotkeySlot::MusicNext => "music-next-hotkey",
        HotkeySlot::MusicPlayPause => "music-playpause-hotkey",
        HotkeySlot::LyricsBtnToggle => "lyrics-btn-hotkey",
    }
}

/// The `settings.json` key of a feature's own switch.
pub fn hotkey_enabled_setting_key(slot: HotkeySlot) -> (r: &'static str)
    ensures
        r@ == match slot {
            HotkeySlot::Overlay => "overlay-hotkey-enabled"@,
            HotkeySlot::Crosshair => "crosshair-hotkey-enabled"@,
            HotkeySlot::Filter => "filter-hotkey-enabled"@,
            HotkeySlot::Autoclicker => "autoclicker-hotkey-enabled"@,
            HotkeySlot::MusicPrev => "music-prev-hotkey-enabled"@,
            HotkeySlot::MusicNext => "music-next-hotkey-enabled"@,
            HotkeySlot::MusicPlayPause => "music-playpause-hotkey-enabled"@,
            HotkeySlot::LyricsBtnToggle => "lyrics-btn-hotkey-enabled"@,
        },
{
    match slot {
        HotkeySlot::Overlay => "overlay-hotkey-enabled",
        HotkeySlot::Crosshair => "crosshair-hotkey-enabled",
        HotkeySlot::Filter => "filter-hotkey-enabled",
        HotkeySlot::Autoclicker => "autoclicker-hotkey-enabled",
        HotkeySlot::MusicPrev => "music-prev-hotkey-enabled",
        HotkeySlot::MusicNext => "music-next-hotkey-enabled",
        HotkeySlot::MusicPlayPause => "music-playpause-hotkey-enabled",
        HotkeySlot::LyricsBtnToggle => "lyrics-btn-hotkey-enabled",
    }
}

/// The shortcut a feature gets when the user never saved one.
pub fn default_shortcut(slot: HotkeySlot) -> (r: &'static str)
    ensures
        r@ == match slot {
            HotkeySlot::Overlay => "Shift+F10"@,
            HotkeySlot::Crosshair => "Shift+F9"@,
            HotkeySlot::Filter => "Shift+F8"@,
            HotkeySlot::Autoclicker => "F8"@,
            HotkeySlot::MusicPrev => "Alt+["@,
            HotkeySlot::MusicNext => "Alt+]"@,
            HotkeySlot::MusicPlayPause => "Alt+Space"@,
            HotkeySlot::LyricsBtnToggle => ""@,
        },
{
    match slot {
        HotkeySlot::Overlay => "Shift+F10",
        HotkeySlot::Crosshair => "Shift+F9",
        HotkeySlot::Filter => "Shift+F8",
        HotkeySlot::Autoclicker => "F8",
        HotkeySlot::MusicPrev => "Alt+[",
        HotkeySlot::MusicNext => "Alt+]",
        HotkeySlot::MusicPlayPause => "Alt+Space",
        HotkeySlot::LyricsBtnToggle => "",
    }
}

/// The saved shortcut if it is a string that is not blank, else `default`.
pub fn load_saved_hotkey(saved: &Option<SettingValue>, default: &str) -> (r: String)
    ensures
        r@ == saved_hotkey_spec(*saved, default@),
{
    match saved {
        Some(SettingValue::Str(s)) => {
            let c = chars_of(s.as_str());
            let t = trim_vec(&c);
            if t.len() > 0 {
                s.clone()
            } else {
                str_to_string(default)
            }
        },
        _ => str_to_string(default),
    }
}

/// The saved master switch; on when nothing (or no boolean) was saved.
pub fn load_saved_hotkeys_enabled(saved: &Option<SettingValue>) -> (r: bool)
    ensures
        r == match saved {
            Some(SettingValue::Bool(b)) => *b,
            _ => true,
        },
{
    match saved {
        Some(SettingValue::Bool(b)) => *b,
        _ => true,
    }
}

/// A saved feature switch; `default` when nothing (or no boolean) was saved.
pub fn load_saved_hotkey_enabled(saved: &Option<SettingValue>, default: bool) -> (r: bool)
    ensures
        r == match saved {
            Some(SettingValue::Bool(b)) => *b,
            _ => default,
        },
{
    match saved {
        Some(SettingValue::Bool(b)) => *b,
        _ => default,
    }
}

/// The shortcut text of the 悬浮框 hotkey (empty when none was set).
pub fn get_overlay_shortcut(state: &HotkeyState) -> (r: String)
    ensures
        r@ == state.shortcut_of(HotkeySlot::Overlay),
{
    get_shortcut(state, HotkeySlot::Overlay)
}

/// The registration id of the 悬浮框 hotkey (0 until a shortcut text parsed).
pub fn get_overlay_shortcut_id(state: &HotkeyState) -> (r: u32)
    ensures
        r == state.id_of(HotkeySlot::Overlay),
{
    get_shortcut_id(state, HotkeySlot::Overlay)
}

/// Stores the 悬浮框 shortcut, and its id where the text parsed.
pub fn init_overlay(state: &mut HotkeyState, shortcut: &str, parsed_id: Option<u32>) -> (r: Option<HotkeyAction>)
    ensures
        set_shortcut_rel(*old(state), *final(state), HotkeySlot::Overlay, shortcut@, parsed_id),
        opt_action_view(r) == init_action_spec(*old(state), HotkeySlot::Overlay, shortcut@),
{
    init_hotkey(state, HotkeySlot::Overlay, shortcut, parsed_id)
}

/// First step of changing the 悬浮框 shortcut.
pub fn update_overlay(state: &HotkeyState, new_shortcut: &str) -> (r: UpdateStep)
    ensures
        r.view() == update_begin_spec(*state, HotkeySlot::Overlay, new_shortcut@),
{
    update_begin(state, HotkeySlot::Overlay, new_shortcut)
}

/// The shortcut text of the 准心 hotkey (empty when none was set).
pub fn get_crosshair_shortcut(state: &HotkeyState) -> (r: String)
    ensures
        r@ == state.shortcut_of(HotkeySlot::Crosshair),
{
    get_shortcut(state, HotkeySlot::Crosshair)
}

/// The registration id of the 准心 hotkey (0 until a shortcut text parsed).
pub fn get_crosshair_shortcut_id(state: &HotkeyState) -> (r: u32)
    ensures
        r == state.id_of(HotkeySlot::Crosshair),
{
    get_shortcut_id(state, HotkeySlot::Crosshair)
}

/// Stores the 准心 shortcut, and its id where the text parsed.
pub fn init_crosshair(state: &mut HotkeyState, shortcut: &str, parsed_id: Option<u32>) -> (r: Option<HotkeyAction>)
    ensures
        set_shortcut_rel(*old(state), *final(state), HotkeySlot::Crosshair, shortcut@, parsed_id),
        opt_action_view(r) == init_action_spec(*old(state), HotkeySlot::Crosshair, shortcut@),
{
    init_hotkey(state, HotkeySlot::Crosshair, shortcut, parsed_id)
}

/// First step of changing the 准心 shortcut.
pub fn update_crosshair(state: &HotkeyState, new_shortcut: &str) -> (r: UpdateStep)
    ensures
        r.view() == update_begin_spec(*state, HotkeySlot::Crosshair, new_shortcut@),
{
    update_begin(state, HotkeySlot::Crosshair, new_shortcut)
}

/// The shortcut text of the 滤镜 hotkey (empty when none was set).
pub fn get_filter_shortcut(state: &HotkeyState) -> (r: String)
    ensures
        r@ == state.shortcut_of(HotkeySlot::Filter),
{
    get_shortcut(state, HotkeySlot::Filter)
}

/// The registration id of the 滤镜 hotkey (0 until a shortcut text parsed).
pub fn get_filter_shortcut_id(state: &HotkeyState) -> (r: u32)
    ensures
        r == state.id_of(HotkeySlot::Filter),
{
    get_shortcut_id(state, HotkeySlot::Filter)
}

/// Stores the 滤镜 shortcut, and its id where the text parsed.
pub fn init_filter(state: &mut HotkeyState, shortcut: &str, parsed_id: Option<u32>) -> (r: Option<HotkeyAction>)
    ensures
        set_shortcut_rel(*old(state), *final(state), HotkeySlot::Filter, shortcut@, parsed_id),
        opt_action_view(r) == init_action_spec(*old(state), HotkeySlot::Filter, shortcut@),
{
    init_hotkey(state, HotkeySlot::Filter, shortcut, parsed_id)
}

/// First step of changing the 滤镜 shortcut.
pub fn update_filter(state: &HotkeyState, new_shortcut: &str) -> (r: UpdateStep)
    ensures
        r.view() == update_begin_spec(*state, HotkeySlot::Filter, new_shortcut@),
{
    update_begin(state, HotkeySlot::Filter, new_shortcut)
}

/// The shortcut text of the 连点器 hotkey (empty when none was set).
pub fn get_autoclicker_shortcut(state: &HotkeyState) -> (r: String)
    ensures
        r@ == state.shortcut_of(HotkeySlot::Autoclicker),
{
    get_shortcut(state, HotkeySlot::Autoclicker)
}

/// The registration id of the 连点器 hotkey (0 until a shortcut text parsed).
pub fn get_autoclicker_shortcut_id(state: &HotkeyState) -> (r: u32)
    ensures
        r == state.id_of(HotkeySlot::Autoclicker),
{
    get_shortcut_id(state, HotkeySlot::Autoclicker)
}

/// Stores the 连点器 shortcut, and its id where the text parsed.
pub fn init_autoclicker(state: &mut HotkeyState, shortcut: &str, parsed_id: Option<u32>) -> (r: Option<HotkeyAction>)
    ensures
        set_shortcut_rel(*old(state), *final(state), HotkeySlot::Autoclicker, shortcut@, parsed_id),
        opt_action_view(r) == init_action_spec(*old(state), HotkeySlot::Autoclicker, shortcut@),
{
    init_hotkey(state, HotkeySlot::Autoclicker, shortcut, parsed_id)
}

/// First step of changing the 连点器 shortcut.
pub fn update_autoclicker(state: &HotkeyState, new_shortcut: &str) -> (r: UpdateStep)
    ensures
        r.view() == update_begin_spec(*state, HotkeySlot::Autoclicker, new_shortcut@),
{
    update_begin(state, HotkeySlot::Autoclicker, new_shortcut)
}

/// The shortcut text of the 上一曲 hotkey (empty when none was set).
pub fn get_music_prev_shortcut(state: &HotkeyState) -> (r: String)
    ensures
        r@ == state.shortcut_of(HotkeySlot::MusicPrev),
{
    get_shortcut(state, HotkeySlot::MusicPrev)
}

/// The registration id of the 上一曲 hotkey (0 until a shortcut text parsed).
pub fn get_music_prev_shortcut_id(state: &HotkeyState) -> (r: u32)
    ensures
        r == state.id_of(HotkeySlot::MusicPrev),
{
    get_shortcut_id(state, HotkeySlot::MusicPrev)
}

/// Stores the 上一曲 shortcut, and its id where the text parsed.
pub fn init_music_prev(state: &mut HotkeyState, shortcut: &str, parsed_id: Option<u32>) -> (r: Option<HotkeyAction>)
    ensures
        set_shortcut_rel(*old(state), *final(state), HotkeySlot::MusicPrev, shortcut@, parsed_id),
        opt_action_view(r) == init_action_spec(*old(state), HotkeySlot::MusicPrev, shortcut@),
{
    init_hotkey(state, HotkeySlot::MusicPrev, shortcut, parsed_id)
}

/// First step of changing the 上一曲 shortcut.
pub fn update_music_prev(state: &HotkeyState, new_shortcut: &str) -> (r: UpdateStep)
    ensures
        r.view() == update_begin_spec(*state, HotkeySlot::MusicPrev, new_shortcut@),
{
    update_begin(state, HotkeySlot::MusicPrev, new_shortcut)
}

/// The shortcut text of the 下一曲 hotkey (empty when none was set).
pub fn get_music_next_shortcut(state: &HotkeyState) -> (r: String)
    ensures
        r@ == state.shortcut_of(HotkeySlot::MusicNext),
{
    get_shortcut(state, HotkeySlot::MusicNext)
}

/// The registration id of the 下一曲 hotkey (0 until a shortcut text parsed).
pub fn get_music_next_shortcut_id(state: &HotkeyState) -> (r: u32)
    ensures
        r == state.id_of(HotkeySlot::MusicNext),
{
    get_shortcut_id(state, HotkeySlot::MusicNext)
}

/// Stores the 下一曲 shortcut, and its id where the text parsed.
pub fn init_music_next(state: &mut HotkeyState, shortcut: &str, parsed_id: Option<u32>) -> (r: Option<HotkeyAction>)
    ensures
        set_shortcut_rel(*old(state), *final(state), HotkeySlot::MusicNext, shortcut@, parsed_id),
        opt_action_view(r) == init_action_spec(*old(state), HotkeySlot::MusicNext, shortcut@),
{
    init_hotkey(state, HotkeySlot::MusicNext, shortcut, parsed_id)
}

/// First step of changing the 下一曲 shortcut.
pub fn update_music_next(state: &HotkeyState, new_shortcut: &str) -> (r: UpdateStep)
    ensures
        r.view() == update_begin_spec(*state, HotkeySlot::MusicNext, new_shortcut@),
{
    update_begin(state, HotkeySlot::MusicNext, new_shortcut)
}

/// The shortcut text of the 播放/暂停 hotkey (empty when none was set).
pub fn get_music_playpause_shortcut(state: &HotkeyState) -> (r: String)
    ensures
        r@ == state.shortcut_of(HotkeySlot::MusicPlayPause),
{
    get_shortcut(state, HotkeySlot::MusicPlayPause)
}

/// The registration id of the 播放/暂停 hotkey (0 until a shortcut text parsed).
pub fn get_music_playpause_shortcut_id(state: &HotkeyState) -> (r: u32)
    ensures
        r == state.id_of(HotkeySlot::MusicPlayPause),
{
    get_shortcut_id(state, HotkeySlot::MusicPlayPause)
}

/// Stores the 播放/暂停 shortcut, and its id where the text parsed.
pub fn init_music_playpause(state: &mut HotkeyState, shortcut: &str, parsed_id: Option<u32>) -> (r: Option<HotkeyAction>)
    ensures
        set_shortcut_rel(*old(state), *final(state), HotkeySlot::MusicPlayPause, shortcut@, parsed_id),
        opt_action_view(r) == init_action_spec(*old(state), HotkeySlot::MusicPlayPause, shortcut@),
{
    init_hotkey(state, HotkeySlot::MusicPlayPause, shortcut, parsed_id)
}

/// First step of changing the 播放/暂停 shortcut.
pub fn update_music_playpause(state: &HotkeyState, new_shortcut: &str) -> (r: UpdateStep)
    ensures
        r.view() == update_begin_spec(*state, HotkeySlot::MusicPlayPause, new_shortcut@),
{
    update_begin(state, HotkeySlot::MusicPlayPause, new_shortcut)
}

/// The shortcut text of the 解锁按钮 hotkey (empty when none was set).
pub fn get_lyrics_btn_toggle_shortcut(state: &HotkeyState) -> (r: String)
    ensures
        r@ == state.shortcut_of(HotkeySlot::LyricsBtnToggle),
{
    get_shortcut(state, HotkeySlot::LyricsBtnToggle)
}

/// The registration id of the 解锁按钮 hotkey (0 until a shortcut text parsed).
pub fn get_lyrics_btn_toggle_shortcut_id(state: &HotkeyState) -> (r: u32)
    ensures
        r == state.id_of(HotkeySlot::LyricsBtnToggle),
{
    get_shortcut_id(state, HotkeySlot::LyricsBtnToggle)
}

/// Stores the 解锁按钮 shortcut, and its id where the text parsed.
pub fn init_lyrics_btn_toggle(state: &mut HotkeyState, shortcut: &str, parsed_id: Option<u32>) -> (r: Option<HotkeyAction>)
    ensures
        set_shortcut_rel(*old(state), *final(state), HotkeySlot::LyricsBtnToggle, shortcut@, parsed_id),
        opt_action_view(r) == init_action_spec(*old(state), HotkeySlot::LyricsBtnToggle, shortcut@),
{
    init_hotkey(state, HotkeySlot::LyricsBtnToggle, shortcut, parsed_id)
}

/// First step of changing the 解锁按钮 shortcut.
pub fn update_lyrics_btn_toggle(state: &HotkeyState, new_shortcut: &str) -> (r: UpdateStep)
    ensures
        r.view() == update_begin_spec(*state, HotkeySlot::LyricsBtnToggle, new_shortcut@),
{
    update_begin(state, HotkeySlot::LyricsBtnToggle, new_shortcut)
}

// ───────────────────────── laws ─────────────────────────

/// With the master switch off, bringing the hotkeys in line registers nothing and
/// hands nothing to the mouse hook: every action releases.
pub proof fn law_master_off_only_releases(state: HotkeyState)
    ensures
        forall|i: int|
            0 <= i < apply_all_spec(state, false).len() ==> match #[trigger] apply_all_spec(state, false)[i] {
                ActionView::Register(_) => false,
                ActionView::Unregister(_) => true,
                ActionView::SetMouseHotkey(o) => o is None,
            },
{
    let v = apply_all_spec(state, false);
    assert forall|i: int| 0 <= i < v.len() implies match #[trigger] v[i] {
        ActionView::Register(_) => false,
        ActionView::Unregister(_) => true,
        ActionView::SetMouseHotkey(o) => o is None,
    } by {
        let s0 = apply_slot_spec(state, HotkeySlot::Overlay, false);
        let s1 = apply_slot_spec(state, HotkeySlot::Crosshair, false);
        let s2 = apply_slot_spec(state, HotkeySlot::Filter, false);
        let s3 = apply_slot_spec(state, HotkeySlot::Autoclicker, false);
        let s4 = apply_slot_spec(state, HotkeySlot::MusicPrev, false);
        let s5 = apply_slot_spec(state, HotkeySlot::MusicNext, false);
        let s6 = apply_slot_spec(state, HotkeySlot::MusicPlayPause, false);
        let s7 = apply_slot_spec(state, HotkeySlot::LyricsBtnToggle, false);
        assert(forall|j: int| 0 <= j < s0.len() ==> !(#[trigger] s0[j] is Register));
        assert(v == s0 + s1 + s2 + s3 + s4 + s5 + s6 + s7);
    }
}

/// A single shortcut is registered exactly when it is a non-empty keyboard shortcut
/// and both the master switch and its own switch are on.
pub proof fn law_register_iff_effective(master: bool, shortcut: Seq<char>, feature_enabled: bool)
    ensures
        (apply_single_spec(master, shortcut, feature_enabled) == Some(ActionView::Register(shortcut)))
            <==> (shortcut.len() > 0 && !is_mouse(shortcut) && master && feature_enabled),
{
}

/// Changing a shortcut takes the new one up (registers it, or hands it to
/// the mouse hook) only while the master switch and the feature's own switch
/// are both on; otherwise the new shortcut is only stored.
pub proof fn law_update_takes_up_only_when_effective(state: HotkeyState, slot: HotkeySlot, new: Seq<char>)
    requires
        !state.effective(slot),
    ensures
        update_begin_spec(state, slot, new) matches UpdateStepView::Perform(release, register) ==> register is None
            && forall|i: int| 0 <= i < release.len() ==> !(#[trigger] release[i] matches ActionView::SetMouseHotkey(Some(_))),
{
}

/// Changing a shortcut that is in force (master switch and the feature's own
/// switch both on) to a different one takes the new one up: a mouse button
/// for the auto-clicker is handed to the mouse hook, any other non-empty
/// shortcut is registered; and the old keyboard shortcut is released first.
pub proof fn law_update_takes_up_when_effective(state: HotkeyState, slot: HotkeySlot, new: Seq<char>)
    requires
        state.effective(slot),
        state.shortcut_of(slot) != new,
    ensures
        update_begin_spec(state, slot, new) matches UpdateStepView::Perform(release, register) && {
            &&& (slot == HotkeySlot::Autoclicker && is_mouse(new)) ==> release.contains(ActionView::SetMouseHotkey(Some(new)))
                && register is None
            &&& (!(slot == HotkeySlot::Autoclicker && is_mouse(new)) && new.len() > 0) ==> register == Some(new)
            &&& (state.shortcut_of(slot).len() > 0 && !is_mouse(state.shortcut_of(slot))) ==> release.len() > 0
                && release[0] == ActionView::Unregister(state.shortcut_of(slot))
        },
{
    let old = state.shortcut_of(slot);
    if slot == HotkeySlot::Autoclicker {
        let pre: Seq<ActionView> = if old.len() > 0 && !is_mouse(old) { seq![ActionView::Unregister(old)] } else { Seq::empty() };
        let all = pre + seq![ActionView::SetMouseHotkey(if is_mouse(new) { Some(new) } else { None })];
        assert(all[all.len() - 1] == ActionView::SetMouseHotkey(if is_mouse(new) { Some(new) } else { None }));
    }
}

/// No key press reaches a feature while the master switch is off.
pub proof fn law_dispatch_needs_master(state: HotkeyState, id: u32)
    requires
        !state.master,
    ensures
        dispatch_spec(state, id) is None,
{
}

/// A pressed shortcut is routed to a feature whose stored id it carries.
pub proof fn law_dispatch_matches_id(state: HotkeyState, id: u32)
    ensures
        dispatch_spec(state, id) matches Some(slot) ==> state.id_of(slot) == id,
{
}

/// Changing a shortcut to the one already stored does nothing.
pub proof fn law_same_shortcut_is_noop(state: HotkeyState, slot: HotkeySlot)
    ensures
        update_begin_spec(state, slot, state.shortcut_of(slot)) == UpdateStepView::Unchanged,
{
}

/// After storing a shortcut it reads back as stored, and no other feature changed.
pub proof fn law_set_then_get(old: HotkeyState, new: HotkeyState, slot: HotkeySlot, s: Seq<char>, parsed_id: Option<u32>)
    requires
        set_shortcut_rel(old, new, slot, s, parsed_id),
    ensures
        new.shortcut_of(slot) == s,
        forall|o: HotkeySlot| o != slot ==> #[trigger] new.shortcut_of(o) == old.shortcut_of(o),
{
    assert forall|o: HotkeySlot| o != slot implies #[trigger] new.shortcut_of(o) == old.shortcut_of(o) by {
        assert(new.entry(o) == old.entry(o));
    }
}

/// A failed change re-establishes the old keyboard shortcut when there was one.
pub proof fn law_failed_update_restores_old(state: HotkeySlot, st: HotkeyState)
    requires
        st.shortcut_of(state).len() > 0,
        !is_mouse(st.shortcut_of(state)),
    ensures
        rollback_spec(st, state) == seq![ActionView::Register(st.shortcut_of(state))],
{
}

} // verus!
