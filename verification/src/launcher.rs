//! The flatlight (launcher) open/close state machine.
//!
//! The launcher's logical state is decoupled from window visibility: while
//! the close animation plays the window is still visible, so a Win tap that
//! lands mid-animation must be routed by the logical `open` flag. Every
//! request that starts or cancels a close bumps `close_seq`; a delayed
//! fallback hide only acts if the sequence is unchanged, so a re-open
//! always cancels a pending hide.
use vstd::prelude::*;

verus! {

/// Logical launcher state.
#[derive(Clone, Copy, PartialEq, Eq, Structural, Debug)]
pub struct LauncherState {
    /// The launcher is logically open (or opening).
    pub open: bool,
    /// Monotonic (wrapping) sequence of close requests.
    pub close_seq: u64,
}

/// Window work the shell performs after a transition.
#[derive(Clone, Copy, PartialEq, Eq, Structural, Debug)]
pub struct LauncherEffects {
    /// Center, (optionally) minimize all windows, show + focus the
    /// flatlight window, then emit `flatlight://shown`.
    pub show_flatlight: bool,
    /// Emit `flatlight://hidden` (the frontend plays its pop-out).
    pub emit_hidden: bool,
    /// Hide the flatlight window right now.
    pub hide_flatlight: bool,
    /// Hide the fullscreen screenshot window right now.
    pub hide_screenshot: bool,
    /// Start the fallback timer that hides the window if this token is
    /// still current when it fires.
    pub fallback_token: Option<u64>,
}

pub open spec fn no_effects() -> LauncherEffects {
    LauncherEffects {
        show_flatlight: false,
        emit_hidden: false,
        hide_flatlight: false,
        hide_screenshot: false,
        fallback_token: None,
    }
}

/// `close_seq` after one bump (`fetch_add(1)` wraps).
pub open spec fn bump(seq: u64) -> u64 {
    if seq == u64::MAX {
        0
    } else {
        (seq + 1) as u64
    }
}

fn bump_seq(seq: u64) -> (r: u64)
    ensures
        r == bump(seq),
{
    seq.wrapping_add(1)
}

// --- transitions (spec) ----------------------------------------------------

pub open spec fn show_step(s: LauncherState, window_exists: bool) -> (LauncherState, LauncherEffects) {
    if !window_exists {
        (s, no_effects())
    } else {
        (
            LauncherState { open: true, close_seq: bump(s.close_seq) },
            LauncherEffects { show_flatlight: true, ..no_effects() },
        )
    }
}

pub open spec fn hide_animated_step(s: LauncherState) -> (LauncherState, LauncherEffects) {
    if !s.open {
        (s, no_effects())
    } else {
        (
            LauncherState { open: false, close_seq: bump(s.close_seq) },
            LauncherEffects {
                emit_hidden: true,
                fallback_token: Some(bump(s.close_seq)),
                ..no_effects()
            },
        )
    }
}

pub open spec fn toggle_step(s: LauncherState, window_exists: bool) -> (LauncherState, LauncherEffects) {
    if s.open {
        hide_animated_step(s)
    } else {
        show_step(s, window_exists)
    }
}

pub open spec fn fallback_fires(s: LauncherState, token: u64) -> bool {
    s.close_seq == token
}

pub open spec fn close_finished_step(s: LauncherState) -> (LauncherState, LauncherEffects) {
    if s.open {
        (s, no_effects())
    } else {
        (
            LauncherState { close_seq: bump(s.close_seq), ..s },
            LauncherEffects { hide_flatlight: true, ..no_effects() },
        )
    }
}

pub open spec fn close_step(s: LauncherState, screenshot_visible: bool) -> (LauncherState, LauncherEffects) {
    if screenshot_visible && !s.open {
        (
            LauncherState { close_seq: bump(s.close_seq), ..s },
            LauncherEffects { hide_screenshot: true, ..no_effects() },
        )
    } else {
        hide_animated_step(s)
    }
}

pub open spec fn close_instantly_step(s: LauncherState) -> (LauncherState, LauncherEffects) {
    if s.open {
        (
            LauncherState { open: false, close_seq: bump(s.close_seq) },
            LauncherEffects { hide_flatlight: true, emit_hidden: true, ..no_effects() },
        )
    } else {
        (s, no_effects())
    }
}

// --- transitions (exec) ----------------------------------------------------

impl LauncherState {
    /// Closed, no close request issued yet.
    pub fn new() -> (s: Self)
        ensures
            !s.open,
            s.close_seq == 0,
    {
        LauncherState { open: false, close_seq: 0 }
    }

    /// Show the flatlight (window first, event after). When the window
    /// does not exist nothing changes.
    pub fn show(&mut self, window_exists: bool) -> (e: LauncherEffects)
        ensures
            (*final(self), e) == show_step(*old(self), window_exists),
    {
        let mut e = LauncherEffects {
            show_flatlight: false,
            emit_hidden: false,
            hide_flatlight: false,
            hide_screenshot: false,
            fallback_token: None,
        };
        if !window_exists {
            return e;
        }
        self.close_seq = bump_seq(self.close_seq);
        self.open = true;
        e.show_flatlight = true;
        e
    }

    /// Start the animated close: emit `flatlight://hidden` and arm the
    /// fallback timer. A no-op when already closing or closed.
    pub fn hide_animated(&mut self) -> (e: LauncherEffects)
        ensures
            (*final(self), e) == hide_animated_step(*old(self)),
    {
        let mut e = LauncherEffects {
            show_flatlight: false,
            emit_hidden: false,
            hide_flatlight: false,
            hide_screenshot: false,
            fallback_token: None,
        };
        if !self.open {
            return e;
        }
        self.open = false;
        self.close_seq = bump_seq(self.close_seq);
        e.emit_hidden = true;
        e.fallback_token = Some(self.close_seq);
        e
    }

    /// Win tap / toggle command: close when logically open, else open.
    pub fn toggle(&mut self, window_exists: bool) -> (e: LauncherEffects)
        ensures
            (*final(self), e) == toggle_step(*old(self), window_exists),
    {
        if self.open {
            self.hide_animated()
        } else {
            self.show(window_exists)
        }
    }

    /// The fallback timer armed with `token` fired: hide only if no newer
    /// show/close happened since.
    pub fn fallback_should_hide(&self, token: u64) -> (hide: bool)
        ensures
            hide == fallback_fires(*self, token),
    {
        self.close_seq == token
    }

    /// The frontend finished its pop-out animation. Ignored when a new
    /// show superseded the close while the report was in flight.
    pub fn close_finished(&mut self) -> (e: LauncherEffects)
        ensures
            (*final(self), e) == close_finished_step(*old(self)),
    {
        let mut e = LauncherEffects {
            show_flatlight: false,
            emit_hidden: false,
            hide_flatlight: false,
            hide_screenshot: false,
            fallback_token: None,
        };
        if self.open {
            return e;
        }
        self.close_seq = bump_seq(self.close_seq);
        e.hide_flatlight = true;
        e
    }

    /// `close_launcher`: when the fullscreen screenshot window is the one
    /// showing (and flatlight is closed) hide that directly; otherwise
    /// close flatlight with its animation.
    pub fn close(&mut self, screenshot_visible: bool) -> (e: LauncherEffects)
        ensures
            (*final(self), e) == close_step(*old(self), screenshot_visible),
    {
        if screenshot_visible && !self.open {
            self.close_seq = bump_seq(self.close_seq);
            return LauncherEffects {
                show_flatlight: false,
                emit_hidden: false,
                hide_flatlight: false,
                hide_screenshot: true,
                fallback_token: None,
            };
        }
        self.hide_animated()
    }

    /// Instant close (minimize-all, screenshot overlay): cancel any pending
    /// animated close and hide right now.
    pub fn close_instantly(&mut self) -> (e: LauncherEffects)
        ensures
            (*final(self), e) == close_instantly_step(*old(self)),
    {
        let mut e = LauncherEffects {
            show_flatlight: false,
            emit_hidden: false,
            hide_flatlight: false,
            hide_screenshot: false,
            fallback_token: None,
        };
        if self.open {
            self.open = false;
            self.close_seq = bump_seq(self.close_seq);
            e.hide_flatlight = true;
            e.emit_hidden = true;
        }
        e
    }
}

/// Top-left corner that centers a `win_w`×`win_h` window horizontally and
/// at one third of the height on a monitor at (`mon_x`, `mon_y`) of size
/// `mon_w`×`mon_h` (physical px; integer division truncates toward zero).
pub fn centered_position(mon_x: i32, mon_y: i32, mon_w: u32, mon_h: u32, win_w: u32, win_h: u32) -> (p: (i32, i32))
    requires
        mon_w <= i32::MAX,
        mon_h <= i32::MAX,
        win_w <= i32::MAX,
        win_h <= i32::MAX,
        i32::MIN <= mon_x + (mon_w - win_w) / 2 <= i32::MAX,
        i32::MIN <= mon_y + (mon_h - win_h) / 3 <= i32::MAX,
    ensures
        p.0 == mon_x + trunc_div(mon_w - win_w, 2),
        p.1 == mon_y + trunc_div(mon_h - win_h, 3),
{
    let dw: i32 = mon_w as i32 - win_w as i32;
    let dh: i32 = mon_h as i32 - win_h as i32;
    let x = mon_x + dw / 2;
    let y = mon_y + dh / 3;
    (x, y)
}

/// Integer division rounding toward zero (Rust's `/` on signed integers).
pub open spec fn trunc_div(a: int, b: int) -> int
    recommends
        b > 0,
{
    if a >= 0 {
        a / b
    } else {
        -((-a) / b)
    }
}

// --- laws ------------------------------------------------------------------

/// Toggling alternates: from closed (window present) it opens, from open it
/// starts the close.
pub proof fn law_toggle_alternates(s: LauncherState)
    ensures
        !s.open ==> toggle_step(s, true).0.open,
        s.open ==> !toggle_step(s, true).0.open,
        s.open ==> toggle_step(s, true).1.emit_hidden,
{
}

/// A re-open cancels a pending close: after an animated close armed token
/// `t`, a show makes the fallback timer for `t` a no-op.
pub proof fn law_show_cancels_pending_hide(s: LauncherState)
    requires
        s.open,
    ensures
        ({
            let (s1, e1) = hide_animated_step(s);
            let (s2, _e2) = show_step(s1, true);
            &&& e1.fallback_token is Some
            &&& fallback_fires(s1, e1.fallback_token->0)
            &&& !fallback_fires(s2, e1.fallback_token->0)
            &&& s2.open
        }),
{
}

/// A late "animation finished" report never hides a launcher that is open.
pub proof fn law_late_close_report_is_ignored(s: LauncherState)
    requires
        s.open,
    ensures
        close_finished_step(s) == (s, no_effects()),
{
}

/// Closing twice in a row animates once: the second request changes
/// nothing.
pub proof fn law_close_is_idempotent(s: LauncherState)
    ensures
        ({
            let (s1, _e1) = hide_animated_step(s);
            hide_animated_step(s1) == (s1, no_effects())
        }),
{
}

/// Every bump changes the close sequence, so a fallback token armed before
/// the bump goes stale.
pub proof fn law_bump_changes_seq(seq: u64)
    ensures
        bump(seq) != seq,
{
}

} // verus!
