//! Start-up and shutdown decisions of the desktop application: the package
//! identity of an MSIX install, the log size limit, the autostart mode, and
//! when the main window's visibility is reported.

use vstd::prelude::*;
use crate::text::{
    chars_of, string_from_chars, str_to_string, append_str, append_vec, has_sub, contains_sub,
    split_when, split_vec, SepKind, views, str_eq, str_to_lowercase, spec_to_lowercase,
};

verus! {

/// The application id of the package manifest.
pub const APP_ID: &'static str = "NexBox";

/// Whether the executable runs from a package install (`\windowsapps\` in its
/// path, in any case).
pub fn is_packaged_exe(exe_path: &str) -> (b: bool)
    ensures
        b == has_sub(spec_to_lowercase(exe_path@), "\\windowsapps\\"@),
{
    let lower = str_to_lowercase(exe_path);
    contains_sub(&chars_of(lower.as_str()), &chars_of("\\windowsapps\\"))
}

/// Splits at `_`.
pub open spec fn underscore_sep() -> spec_fn(char) -> bool {
    |c: char| c == '_'
}

/// A non-empty piece.
pub open spec fn nonempty_piece() -> spec_fn(Seq<char>) -> bool {
    |w: Seq<char>| w.len() > 0
}

/// The package's user model id from its install directory
/// `<Family>_<Version>_<Arch>__<Hash>`: the first and last non-empty pieces
/// joined by `_`, then `!` and the application id; `None` with fewer than two
/// pieces.
pub open spec fn aumid_spec(dir_name: Seq<char>) -> Option<Seq<char>> {
    let segs = split_when(dir_name, underscore_sep()).filter(nonempty_piece());
    if segs.len() < 2 {
        None
    } else {
        Some(segs[0] + "_"@ + segs.last() + "!"@ + APP_ID@)
    }
}

/// The package's user model id (see `aumid_spec`).
pub fn packaged_aumid(dir_name: &str) -> (r: Option<String>)
    ensures
        crate::music_api::models::ov(r) == aumid_spec(dir_name@),
{
    let v = chars_of(dir_name);
    let kind = SepKind::AnyOf(vec!['_']);
    let parts = split_vec(&v, &kind);
    assert(kind.pred() =~= underscore_sep()) by {
        assert forall|c: char| #[trigger] kind.pred()(c) == underscore_sep()(c) by {
            if c == '_' {
                assert(seq!['_'][0] == c);
            }
        }
    }
    let ghost pv = views(parts@);
    let ghost f = nonempty_piece();
    let mut segs: Vec<Vec<char>> = Vec::new();
    let mut i: usize = 0;
    while i < parts.len()
        invariant
            i <= parts@.len(),
            pv == views(parts@),
            pv == split_when(dir_name@, underscore_sep()),
            f == nonempty_piece(),
            views(segs@) == pv.subrange(0, i as int).filter(f),
        decreases parts.len() - i,
    {
        let ghost pre = pv.subrange(0, i + 1);
        assert(pre.drop_last() =~= pv.subrange(0, i as int));
        assert(pre.filter(f) == if f(pre.last()) {
            pre.drop_last().filter(f).push(pre.last())
        } else {
            pre.drop_last().filter(f)
        }) by {
            reveal_with_fuel(Seq::filter, 1);
        }
        assert(pre.last() == parts@[i as int]@);
        if parts[i].len() > 0 {
            let mut w: Vec<char> = Vec::new();
            append_vec(&mut w, &parts[i]);
            let ghost before = views(segs@);
            segs.push(w);
            assert(views(segs@) =~= before.push(pre.last()));
        }
        i = i + 1;
    }
    assert(pv.subrange(0, pv.len() as int) =~= pv);
    if segs.len() < 2 {
        return None;
    }
    assert(views(segs@)[0] == segs@[0]@);
    assert(views(segs@).last() == segs@[segs@.len() - 1]@);
    let mut out: Vec<char> = Vec::new();
    append_vec(&mut out, &segs[0]);
    out.push('_');
    append_vec(&mut out, &segs[segs.len() - 1]);
    out.push('!');
    append_str(&mut out, APP_ID);
    proof {
        reveal_strlit("_");
        reveal_strlit("!");
    }
    assert(out@ =~= segs@[0]@ + "_"@ + segs@[segs@.len() - 1]@ + "!"@ + APP_ID@);
    Some(string_from_chars(&out))
}

/// The size above which the log file starts anew: 5 MiB.
pub const LOG_LIMIT: u64 = 5 * 1024 * 1024;

/// Whether the log file is removed before logging starts.
pub fn log_needs_reset(len: u64) -> (b: bool)
    ensures
        b == (len > LOG_LIMIT),
{
    len > LOG_LIMIT
}

/// Whether the application was started by the system at log-in
/// (`--autostart` among its arguments).
pub fn is_autostart_args(args: &Vec<String>) -> (b: bool)
    ensures
        b == exists|i: int| 0 <= i < args@.len() && args@[i]@ == "--autostart"@,
{
    let mut i: usize = 0;
    while i < args.len()
        invariant
            i <= args@.len(),
            forall|j: int| 0 <= j < i ==> args@[j]@ != "--autostart"@,
        decreases args.len() - i,
    {
        if str_eq(args[i].as_str(), "--autostart") {
            return true;
        }
        i = i + 1;
    }
    false
}

/// How the main window is shown at start.
pub struct StartupWindow {
    /// Kept off the taskbar.
    pub skip_taskbar: bool,
    /// Moved off screen so that its page loads unseen.
    pub off_screen: bool,
    /// Restored to its last position.
    pub restore_position: bool,
    /// Reported visible.
    pub report_visible: bool,
}

/// How the main window is shown at start: off screen and off the taskbar at
/// log-in, else where it was and reported visible.
pub fn startup_window(is_autostart: bool) -> (r: StartupWindow)
    ensures
        r.skip_taskbar == is_autostart,
        r.off_screen == is_autostart,
        r.restore_position == !is_autostart,
        r.report_visible == !is_autostart,
{
    StartupWindow {
        skip_taskbar: is_autostart,
        off_screen: is_autostart,
        restore_position: !is_autostart,
        report_visible: !is_autostart,
    }
}

/// What follows a change of the main window's visibility.
pub enum VisibilityAction {
    /// Nothing changed: report nothing.
    Nothing,
    /// Report it visible and leave efficiency mode.
    ShownLeaveEco,
    /// Report it hidden and look again in three seconds.
    HiddenCheckLater,
}

/// The main window's last reported visibility.
pub struct MainVisibility {
    pub visible: bool,
}

impl MainVisibility {
    /// Records the window's visibility: a change is reported, a repeat is not.
    pub fn set(&mut self, visible: bool) -> (a: VisibilityAction)
        ensures
            final(self).visible == visible,
            old(self).visible == visible ==> a is Nothing,
            old(self).visible != visible && visible ==> a is ShownLeaveEco,
            old(self).visible != visible && !visible ==> a is HiddenCheckLater,
    {
        let changed = self.visible != visible;
        self.visible = visible;
        if !changed {
            VisibilityAction::Nothing
        } else if visible {
            VisibilityAction::ShownLeaveEco
        } else {
            VisibilityAction::HiddenCheckLater
        }
    }

    /// The look three seconds after hiding: efficiency mode goes on only if
    /// the window is still hidden.
    pub fn enter_eco_now(&self) -> (b: bool)
        ensures
            b == !self.visible,
    {
        !self.visible
    }
}

/// The windows hidden before the application exits.
pub fn exit_hidden_windows() -> (r: Vec<&'static str>)
    ensures
        crate::music_api::key_views(r@) == seq!["main"@, "tray-menu"@, "desktop-lyrics"@, "lyrics-unlock-btn"@, "vertical-overlay"@],
{
    let r: Vec<&'static str> = vec!["main", "tray-menu", "desktop-lyrics", "lyrics-unlock-btn", "vertical-overlay"];
    assert(crate::music_api::key_views(r@) =~= seq!["main"@, "tray-menu"@, "desktop-lyrics"@, "lyrics-unlock-btn"@, "vertical-overlay"@]);
    r
}

/// Whether a downloaded update is installed on exit: automatic updates are on
/// and the installer is still there.
pub fn install_on_exit(auto_update: bool, pending_exists: Option<bool>) -> (b: bool)
    ensures
        b == (auto_update && pending_exists == Some(true)),
{
    auto_update && match pending_exists {
        Some(e) => e,
        None => false,
    }
}

} // verus!
