//! The Win-key gesture machine behind the low-level keyboard hook.
//!
//! The hook itself (installing `WH_KEYBOARD_LL`, pumping messages, calling
//! `SendInput`) lives with the platform glue; every decision it makes is
//! taken here, from the current latch state and one keyboard event:
//!
//!   - Win TAP (down + up alone, before the hold threshold) -> `Tap`
//!   - Win HOLD (held for the threshold)                    -> `Hold(ctrl)`
//!   - Win RELEASE while the picker is open                 -> `TablesRelease`
//!   - any other key while Win is pending (a combo)         -> re-inject the
//!     swallowed Win-down, dismiss an open picker (`TablesCancel`)
//!   - a standalone Alt tap                                  -> inject a dummy
//!     key-up so the focused window's menu bar does not activate
use vstd::prelude::*;

verus! {

/// `WM_KEYDOWN`
pub const WM_KEYDOWN: u32 = 0x0100;
/// `WM_KEYUP`
pub const WM_KEYUP: u32 = 0x0101;
/// `WM_SYSKEYDOWN`
pub const WM_SYSKEYDOWN: u32 = 0x0104;
/// `WM_SYSKEYUP`
pub const WM_SYSKEYUP: u32 = 0x0105;
/// `VK_LWIN`
pub const VK_LWIN: u16 = 0x5B;
/// `VK_RWIN`
pub const VK_RWIN: u16 = 0x5C;
/// `VK_MENU` (either Alt)
pub const VK_MENU: u16 = 0x12;
/// `VK_LMENU`
pub const VK_LMENU: u16 = 0xA4;
/// `VK_RMENU`
pub const VK_RMENU: u16 = 0xA5;
/// `VK__none_`: a key no real keyboard produces; its key-up cancels the
/// menu-bar activation of a standalone Alt release.
pub const VK_NONE: u16 = 0xFF;

/// Default hold threshold (ms) before the table picker appears.
pub const DEFAULT_HOLD_MS: u64 = 220;
/// Shortest accepted hold threshold (ms).
pub const MIN_HOLD_MS: u64 = 80;
/// Longest accepted hold threshold (ms).
pub const MAX_HOLD_MS: u64 = 1000;

/// The three latches the hook keeps between events.
#[derive(Clone, Copy, PartialEq, Eq, Structural, Debug)]
pub struct KeyLatch {
    /// A non-injected Win-down was swallowed and nothing else happened yet.
    pub win_pending: bool,
    /// The radial table picker is showing (the hold threshold elapsed).
    pub tables_open: bool,
    /// Alt went down and no other key followed yet.
    pub alt_pending: bool,
}

/// Direction of a keyboard message.
#[derive(Clone, Copy, PartialEq, Eq, Structural, Debug)]
pub enum KeyMotion {
    Down,
    Up,
    Other,
}

/// One low-level keyboard event as the hook receives it.
#[derive(Clone, Copy, PartialEq, Eq, Structural, Debug)]
pub struct KeyEvent {
    /// `nCode == HC_ACTION`; any other code is passed on untouched.
    pub is_action: bool,
    /// The window message (`WM_KEYDOWN`, `WM_SYSKEYUP`, ...).
    pub message: u32,
    /// The virtual-key code (low 16 bits of `vkCode`).
    pub vk: u16,
    /// `LLKHF_INJECTED` was set: synthetic input.
    pub injected: bool,
}

/// A gesture handed to the shell (each runs on its own worker thread).
#[derive(Clone, Copy, PartialEq, Eq, Structural, Debug)]
pub enum Gesture {
    Tap,
    TablesRelease,
    TablesCancel,
}

/// What the hook does with one event.
#[derive(Clone, Copy, PartialEq, Eq, Structural, Debug)]
pub struct HookAction {
    /// Swallow the event (the hook returns 1) instead of passing it on.
    pub suppress: bool,
    /// Gesture to fire, if any.
    pub fire: Option<Gesture>,
    /// Start the one-shot hold detector.
    pub start_hold_detector: bool,
    /// Re-send the swallowed Win-down (marked injected).
    pub reinject_win_down: bool,
    /// Send a `VK_NONE` key-up (Alt menu suppression).
    pub inject_dummy_keyup: bool,
}

pub open spec fn is_win_key(vk: u16) -> bool {
    vk == VK_LWIN || vk == VK_RWIN
}

pub open spec fn is_alt_key(vk: u16) -> bool {
    vk == VK_LMENU || vk == VK_RMENU || vk == VK_MENU
}

pub open spec fn motion_of(message: u32) -> KeyMotion {
    if message == WM_KEYDOWN || message == WM_SYSKEYDOWN {
        KeyMotion::Down
    } else if message == WM_KEYUP || message == WM_SYSKEYUP {
        KeyMotion::Up
    } else {
        KeyMotion::Other
    }
}

/// The action that passes the event on and does nothing else.
pub open spec fn pass() -> HookAction {
    HookAction {
        suppress: false,
        fire: None,
        start_hold_detector: false,
        reinject_win_down: false,
        inject_dummy_keyup: false,
    }
}

/// The latch state every reachable state satisfies: the picker can only
/// be open while the Win press that opened it is still held.
pub open spec fn latch_wf(s: KeyLatch) -> bool {
    s.tables_open ==> s.win_pending
}

/// The resting state: nothing pressed, no picker.
pub open spec fn idle() -> KeyLatch {
    KeyLatch { win_pending: false, tables_open: false, alt_pending: false }
}

impl KeyLatch {
    /// Nothing held, picker closed.
    pub fn new() -> (s: Self)
        ensures
            s == idle(),
    {
        KeyLatch { win_pending: false, tables_open: false, alt_pending: false }
    }
}

/// Classify a keyboard window message.
pub fn key_motion(message: u32) -> (m: KeyMotion)
    ensures
        m == motion_of(message),
{
    if message == WM_KEYDOWN || message == WM_SYSKEYDOWN {
        KeyMotion::Down
    } else if message == WM_KEYUP || message == WM_SYSKEYUP {
        KeyMotion::Up
    } else {
        KeyMotion::Other
    }
}

/// Hold threshold actually used by the detector: the configured value
/// clamped to `[MIN_HOLD_MS, MAX_HOLD_MS]`.
pub fn hold_delay_ms(configured: u64) -> (ms: u64)
    ensures
        ms == if configured < MIN_HOLD_MS {
            MIN_HOLD_MS
        } else if configured > MAX_HOLD_MS {
            MAX_HOLD_MS
        } else {
            configured
        },
{
    if configured < MIN_HOLD_MS {
        MIN_HOLD_MS
    } else if configured > MAX_HOLD_MS {
        MAX_HOLD_MS
    } else {
        configured
    }
}

/// Decide what the hook does with one event, updating the latches.
/// The decision table is `key_step`.
pub fn on_key_event(latch: &mut KeyLatch, ev: KeyEvent) -> (act: HookAction)
    ensures
        (*final(latch), act) == key_step(*old(latch), ev),
{
    let mut act = HookAction {
        suppress: false,
        fire: None,
        start_hold_detector: false,
        reinject_win_down: false,
        inject_dummy_keyup: false,
    };
    if !ev.is_action || ev.injected {
        return act;
    }
    let m = key_motion(ev.message);
    if ev.vk == VK_LWIN || ev.vk == VK_RWIN {
        match m {
            KeyMotion::Down => {
                latch.win_pending = true;
                act.suppress = true;
                act.start_hold_detector = true;
            },
            KeyMotion::Up => {
                if latch.tables_open {
                    latch.tables_open = false;
                    latch.win_pending = false;
                    act.suppress = true;
                    act.fire = Some(Gesture::TablesRelease);
                } else if latch.win_pending {
                    latch.win_pending = false;
                    act.suppress = true;
                    act.fire = Some(Gesture::Tap);
                }
            },
            KeyMotion::Other => {},
        }
    } else if ev.vk == VK_LMENU || ev.vk == VK_RMENU || ev.vk == VK_MENU {
        match m {
            KeyMotion::Down => {
                latch.alt_pending = true;
            },
            KeyMotion::Up => {
                act.inject_dummy_keyup = latch.alt_pending;
                latch.alt_pending = false;
            },
            KeyMotion::Other => {},
        }
    } else {
        match m {
            KeyMotion::Down => {
                if latch.win_pending {
                    latch.win_pending = false;
                    if latch.tables_open {
                        latch.tables_open = false;
                        act.fire = Some(Gesture::TablesCancel);
                    }
                    act.reinject_win_down = true;
                } else {
                    latch.alt_pending = false;
                }
            },
            _ => {},
        }
    }
    act
}

/// The hold detector woke up after the threshold. If Win is still pending
/// (not released, no combo) and the picker is not showing yet, the picker
/// opens; the result is the `ctrl` flag to show it with (centered when Ctrl
/// is down), or `None` when nothing happens.
pub fn on_hold_elapsed(latch: &mut KeyLatch, ctrl_down: bool) -> (shown: Option<bool>)
    ensures
        *final(latch) == hold_step(*old(latch)),
        shown == (if old(latch).win_pending && !old(latch).tables_open {
            Some(ctrl_down)
        } else {
            None
        }),
{
    if !latch.win_pending || latch.tables_open {
        return None;
    }
    latch.tables_open = true;
    Some(ctrl_down)
}

// ---------------------------------------------------------------------------
// Laws
// ---------------------------------------------------------------------------

/// Spec-level image of `on_key_event` (used to chain events in the laws).
pub open spec fn key_step(s: KeyLatch, ev: KeyEvent) -> (KeyLatch, HookAction) {
    if !ev.is_action || ev.injected {
        (s, pass())
    } else if is_win_key(ev.vk) {
        let m = motion_of(ev.message);
        if m == KeyMotion::Down {
            (
                KeyLatch { win_pending: true, ..s },
                HookAction { suppress: true, start_hold_detector: true, ..pass() },
            )
        } else if m == KeyMotion::Up && s.tables_open {
            (
                KeyLatch { win_pending: false, tables_open: false, ..s },
                HookAction { suppress: true, fire: Some(Gesture::TablesRelease), ..pass() },
            )
        } else if m == KeyMotion::Up && s.win_pending {
            (
                KeyLatch { win_pending: false, ..s },
                HookAction { suppress: true, fire: Some(Gesture::Tap), ..pass() },
            )
        } else {
            (s, pass())
        }
    } else if is_alt_key(ev.vk) {
        let m = motion_of(ev.message);
        if m == KeyMotion::Down {
            (KeyLatch { alt_pending: true, ..s }, pass())
        } else if m == KeyMotion::Up {
            (
                KeyLatch { alt_pending: false, ..s },
                HookAction { inject_dummy_keyup: s.alt_pending, ..pass() },
            )
        } else {
            (s, pass())
        }
    } else if motion_of(ev.message) == KeyMotion::Down && s.win_pending {
        (
            KeyLatch { win_pending: false, tables_open: false, ..s },
            HookAction {
                fire: if s.tables_open {
                    Some(Gesture::TablesCancel)
                } else {
                    None
                },
                reinject_win_down: true,
                ..pass()
            },
        )
    } else if motion_of(ev.message) == KeyMotion::Down {
        (KeyLatch { alt_pending: false, ..s }, pass())
    } else {
        (s, pass())
    }
}

/// Spec-level image of `on_hold_elapsed`.
pub open spec fn hold_step(s: KeyLatch) -> KeyLatch {
    if s.win_pending && !s.tables_open {
        KeyLatch { tables_open: true, ..s }
    } else {
        s
    }
}

/// Every event and every hold timeout keeps the latch invariant: the picker
/// is only ever open while the Win press that opened it is held.
pub proof fn law_latch_invariant(s: KeyLatch, ev: KeyEvent)
    requires
        latch_wf(s),
    ensures
        latch_wf(key_step(s, ev).0),
        latch_wf(hold_step(s)),
{
}

/// Synthetic input (our own re-injected Win-down, the dummy key-up, remote
/// input) is never touched: it passes through and changes nothing.
pub proof fn law_injected_is_transparent(s: KeyLatch, ev: KeyEvent)
    requires
        ev.injected,
    ensures
        key_step(s, ev) == (s, pass()),
{
}

pub open spec fn win_down(vk: u16) -> KeyEvent {
    KeyEvent { is_action: true, message: WM_KEYDOWN, vk, injected: false }
}

pub open spec fn win_up(vk: u16) -> KeyEvent {
    KeyEvent { is_action: true, message: WM_KEYUP, vk, injected: false }
}

/// A Win tap (down then up, no other key, before the hold threshold) fires
/// exactly one `Tap`, swallows both events, and leaves Win released.
pub proof fn law_tap_toggles(s: KeyLatch, vk: u16)
    requires
        latch_wf(s),
        is_win_key(vk),
        !s.tables_open,
    ensures
        ({
            let (s1, a1) = key_step(s, win_down(vk));
            let (s2, a2) = key_step(s1, win_up(vk));
            &&& a1.suppress && a1.fire is None && a1.start_hold_detector
            &&& a2.suppress && a2.fire == Some(Gesture::Tap)
            &&& !s2.win_pending && !s2.tables_open
        }),
{
}

/// Holding Win past the threshold opens the picker (with the sampled Ctrl
/// flag), and the release then fires `TablesRelease` — never a `Tap` — and
/// is swallowed.
pub proof fn law_hold_then_release(s: KeyLatch, vk: u16, ctrl: bool)
    requires
        latch_wf(s),
        is_win_key(vk),
    ensures
        ({
            let (s1, _a1) = key_step(s, win_down(vk));
            let s2 = hold_step(s1);
            let (s3, a3) = key_step(s2, win_up(vk));
            &&& s2.tables_open
            &&& a3.suppress && a3.fire == Some(Gesture::TablesRelease)
            &&& !s3.win_pending && !s3.tables_open
        }),
{
}

/// A Win combo (another key pressed while Win is held) re-injects the
/// swallowed Win-down and lets the other key through; the later Win-up is
/// passed on and fires nothing, so the shortcut resolves natively.
pub proof fn law_combo_goes_native(s: KeyLatch, vk: u16, other: KeyEvent)
    requires
        latch_wf(s),
        is_win_key(vk),
        other.is_action && !other.injected,
        motion_of(other.message) == KeyMotion::Down,
        !is_win_key(other.vk) && !is_alt_key(other.vk),
    ensures
        ({
            let (s1, _a1) = key_step(s, win_down(vk));
            let (s2, a2) = key_step(s1, other);
            let (s3, a3) = key_step(s2, win_up(vk));
            &&& !a2.suppress && a2.reinject_win_down
            &&& a3 == pass()
            &&& s3 == s2
            &&& !s3.win_pending && !s3.tables_open
        }),
{
}

/// A combo while the picker is already showing dismisses it.
pub proof fn law_combo_dismisses_picker(s: KeyLatch, other: KeyEvent)
    requires
        latch_wf(s),
        s.tables_open,
        other.is_action && !other.injected,
        motion_of(other.message) == KeyMotion::Down,
        !is_win_key(other.vk) && !is_alt_key(other.vk),
    ensures
        key_step(s, other).1.fire == Some(Gesture::TablesCancel),
        !key_step(s, other).0.tables_open,
{
}

/// A standalone Alt tap injects the dummy key-up; Alt+X does not.
pub proof fn law_alt_tap(s: KeyLatch, alt: u16, other: KeyEvent)
    requires
        is_alt_key(alt),
        other.is_action && !other.injected,
        motion_of(other.message) == KeyMotion::Down,
        !is_win_key(other.vk) && !is_alt_key(other.vk),
    ensures
        ({
            let down = KeyEvent { is_action: true, message: WM_SYSKEYDOWN, vk: alt, injected: false };
            let up = KeyEvent { is_action: true, message: WM_KEYUP, vk: alt, injected: false };
            let (s1, a1) = key_step(s, down);
            let (s2, a2) = key_step(s1, up);
            let (t2, _b2) = key_step(s1, other);
            let (_t3, b3) = key_step(t2, up);
            &&& !a1.suppress && !a2.suppress
            &&& a2.inject_dummy_keyup
            &&& !s1.win_pending ==> !b3.inject_dummy_keyup
        }),
{
}

/// Win auto-repeat while the picker is showing: another Win-down keeps the
/// picker open (and is swallowed), so the release still opens the hovered
/// table instead of toggling the launcher.
pub proof fn law_repeat_keeps_picker(s: KeyLatch, vk: u16)
    requires
        s.tables_open,
        is_win_key(vk),
    ensures
        ({
            let (s1, a1) = key_step(s, win_down(vk));
            let (s2, a2) = key_step(s1, win_up(vk));
            &&& s1.tables_open && s1.win_pending
            &&& a1.suppress && a1.fire is None
            &&& a2.suppress && a2.fire == Some(Gesture::TablesRelease)
            &&& !s2.tables_open && !s2.win_pending
        }),
{
}

} // verus!
