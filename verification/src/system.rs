//! Process-level decisions: elevation, the helper set-up, the taskbar
//! hider's on/off switch, the crash guard, the keyboard-language badge
//! and the autostart entries.
use vstd::prelude::*;
use crate::text::{ascii_upper_seq, str_ascii_upper};

verus! {

broadcast use vstd::string::group_string_axioms;

// ---------------------------------------------------------------------------
// Elevation
// ---------------------------------------------------------------------------

/// How a request to run elevated ended.
#[derive(Clone, Copy, Debug, PartialEq, Eq, Structural)]
pub enum ElevationOutcome {
    /// The process is already elevated — no prompt was shown.
    AlreadyElevated,
    /// The user accepted the UAC prompt; an elevated copy was launched and
    /// this process should exit.
    Accepted,
    /// The user declined (or the relaunch failed): nothing was launched.
    /// The shell needs the rights it asked for, so it exits too.
    Declined,
}

/// Whether the process token is elevated: the token could be opened and
/// its elevation queried (`Some(TokenIsElevated)`), and the flag is set.
pub fn is_elevated(token_opened: bool, token_is_elevated: Option<u32>) -> (b: bool)
    ensures
        b == (token_opened && token_is_elevated is Some && token_is_elevated->0 != 0),
{
    match token_is_elevated {
        Some(v) => token_opened && v != 0,
        None => false,
    }
}

/// The outcome of a request to run elevated: nothing to do when already
/// elevated; otherwise the `ShellExecuteW` result of the relaunch (`None`
/// when no relaunch could be attempted) decides, values above 32 meaning
/// success.
pub fn request_elevation(already_elevated: bool, shell_execute_code: Option<usize>) -> (r: ElevationOutcome)
    ensures
        r == if already_elevated {
            ElevationOutcome::AlreadyElevated
        } else {
            match shell_execute_code {
                Some(code) => if code > 32 {
                    ElevationOutcome::Accepted
                } else {
                    ElevationOutcome::Declined
                },
                None => ElevationOutcome::Declined,
            }
        },
{
    if already_elevated {
        return ElevationOutcome::AlreadyElevated;
    }
    match shell_execute_code {
        Some(code) if code > 32 => ElevationOutcome::Accepted,
        _ => ElevationOutcome::Declined,
    }
}

/// The arguments after the program name joined by single spaces.
pub open spec fn joined_args(args: Seq<String>, from: int) -> Seq<char>
    decreases args.len() - from,
{
    if from >= args.len() {
        Seq::empty()
    } else if from == args.len() - 1 {
        args[from]@
    } else {
        args[from]@ + " "@ + joined_args(args, from + 1)
    }
}

/// Parameters for the elevated relaunch: the same arguments (without the
/// program name), or none when that text is empty.
pub fn relaunch_params(args: &Vec<String>) -> (r: Option<String>)
    ensures
        match r {
            Some(p) => p@ == joined_args(args@, 1) && p@.len() > 0,
            None => joined_args(args@, 1).len() == 0,
        },
{
    if args.len() <= 1 {
        return None;
    }
    let mut k: usize = args.len() - 1;
    let mut acc = args[k].clone();
    while k > 1
        invariant
            1 <= k < args@.len(),
            acc@ == joined_args(args@, k as int),
        decreases k,
    {
        k -= 1;
        let mut next = args[k].clone();
        next.append(" ");
        next.append(acc.as_str());
        acc = next;
    }
    if acc.as_str().is_empty() {
        None
    } else {
        Some(acc)
    }
}

// ---------------------------------------------------------------------------
// Helper executables
// ---------------------------------------------------------------------------

/// The helper executables carried in the binary, in extraction order.
pub fn helper_names() -> (names: [&'static str; 2])
    ensures
        names@[0]@ == "HideTaskbar.exe"@,
        names@[1]@ == "flatwin.exe"@,
{
    ["HideTaskbar.exe", "flatwin.exe"]
}

/// One attempt to write a helper to disk.
pub struct ExtractAttempt {
    pub path: String,
    /// The write succeeded.
    pub written: bool,
    /// A file was at the path afterwards (a running helper locks its file,
    /// and the copy already there is reused).
    pub exists: bool,
}

pub open spec fn kept_paths(attempts: Seq<ExtractAttempt>) -> Seq<Seq<char>>
    decreases attempts.len(),
{
    if attempts.len() == 0 {
        Seq::empty()
    } else {
        let prev = kept_paths(attempts.drop_last());
        let a = attempts.last();
        if a.written || a.exists {
            prev.push(a.path@)
        } else {
            prev
        }
    }
}

/// The helper paths that are usable after extraction, in order.
pub fn ensure_helpers(attempts: &Vec<ExtractAttempt>) -> (r: Vec<String>)
    ensures
        r@.map_values(|s: String| s@) == kept_paths(attempts@),
{
    let mut r: Vec<String> = Vec::new();
    let mut i: usize = 0;
    while i < attempts.len()
        invariant
            i <= attempts@.len(),
            r@.map_values(|s: String| s@) == kept_paths(attempts@.take(i as int)),
        decreases attempts@.len() - i,
    {
        proof {
            assert(attempts@.take(i + 1).drop_last() =~= attempts@.take(i as int));
        }
        let a = &attempts[i];
        if a.written || a.exists {
            let ghost before = r@;
            r.push(a.path.clone());
            proof {
                assert(r@.map_values(|s: String| s@) =~= before.map_values(|s: String| s@).push(
                    a.path@,
                ));
            }
        }
        i += 1;
    }
    proof {
        assert(attempts@.take(attempts@.len() as int) =~= attempts@);
    }
    r
}

/// Where a helper is started from: its extracted copy when that is on
/// disk, else the first fallback location holding it.
pub open spec fn helper_choice(
    extracted: Option<Seq<char>>,
    extracted_exists: bool,
    fallbacks: Seq<(String, bool)>,
) -> Option<Seq<char>> {
    if extracted is Some && extracted_exists {
        extracted
    } else if exists|i: int| 0 <= i < fallbacks.len() && fallbacks[i].1 {
        let i = choose|i: int|
            0 <= i < fallbacks.len() && fallbacks[i].1 && forall|j: int|
                0 <= j < i ==> !fallbacks[j].1;
        Some(fallbacks[i].0@)
    } else {
        None
    }
}

pub open spec fn opt_string(o: Option<String>) -> Option<Seq<char>> {
    match o {
        Some(s) => Some(s@),
        None => None,
    }
}

/// The path a helper is started from (see `helper_choice`).
pub fn find_helper(extracted: Option<String>, extracted_exists: bool, fallbacks: &Vec<(String, bool)>) -> (r: Option<String>)
    ensures
        opt_string(r) == helper_choice(opt_string(extracted), extracted_exists, fallbacks@),
{
    if extracted_exists {
        if let Some(p) = extracted {
            return Some(p);
        }
    }
    assert(!(opt_string(extracted) is Some && extracted_exists));
    let mut i: usize = 0;
    while i < fallbacks.len()
        invariant
            i <= fallbacks@.len(),
            !(opt_string(extracted) is Some && extracted_exists),
            forall|j: int| 0 <= j < i ==> !fallbacks@[j].1,
        decreases fallbacks@.len() - i,
    {
        if fallbacks[i].1 {
            proof {
                assert(fallbacks@[i as int].1 && forall|j: int| 0 <= j < i ==> !fallbacks@[j].1);
                let c = choose|c: int|
                    0 <= c < fallbacks@.len() && fallbacks@[c].1 && forall|j: int|
                        0 <= j < c ==> !fallbacks@[j].1;
                assert(c == i) by {
                    if c < i {
                        assert(!fallbacks@[c].1);
                    } else if c > i {
                        assert(!fallbacks@[i as int].1);
                    }
                }
            }
            let p = fallbacks[i].0.clone();
            proof {
                assert(p@ == fallbacks@[i as int].0@);
            }
            return Some(p);
        }
        i += 1;
    }
    None
}

/// Runs the helper set-up at most once per process.
pub struct SetupGuard {
    pub done: bool,
}

impl SetupGuard {
    pub fn new() -> (g: SetupGuard)
        ensures
            !g.done,
    {
        SetupGuard { done: false }
    }

    /// Whether this call is the first; afterwards the set-up counts as done.
    pub fn begin(&mut self) -> (first: bool)
        ensures
            first == !old(self).done,
            final(self).done,
    {
        let first = !self.done;
        self.done = true;
        first
    }
}

/// The set-up steps reported to the set-up window: none when the set-up
/// already ran; otherwise the taskbar step, successful when the helper
/// was found and started.
pub fn run_setup(first_run: bool, hide_taskbar_started: Option<bool>) -> (steps: Vec<(String, bool)>)
    ensures
        !first_run ==> steps@.len() == 0,
        first_run ==> steps@.len() == 1 && steps@[0].0@ == "Hiding taskbar..."@ && steps@[0].1 == (
        hide_taskbar_started == Some(true)),
{
    let mut steps: Vec<(String, bool)> = Vec::new();
    if !first_run {
        return steps;
    }
    let ok = match hide_taskbar_started {
        Some(started) => started,
        None => false,
    };
    steps.push(("Hiding taskbar...".to_owned(), ok));
    steps
}

// ---------------------------------------------------------------------------
// Native taskbar hider
// ---------------------------------------------------------------------------

/// Turns the hider on: whether a keep-hidden monitor must be started
/// (not when one already runs).
pub fn start(running: &mut bool) -> (spawn: bool)
    ensures
        spawn == !*old(running),
        *final(running),
{
    let spawn = !*running;
    *running = true;
    spawn
}

/// Turns the hider off; the taskbar is then shown again.
pub fn stop(running: &mut bool)
    ensures
        !*final(running),
{
    *running = false;
}

/// Starting twice starts one monitor, and a stop lets the next start
/// start one again.
pub proof fn law_start_is_idempotent(r0: bool, s1: bool, r1: bool, s2: bool, r2: bool)
    requires
        s1 == !r0,
        r1,
        s2 == !r1,
        r2,
    ensures
        !s2,
        !r0 ==> s1,
{
}

/// Layered-window alpha that hides (0) or shows (255) a taskbar.
pub fn taskbar_alpha(hidden: bool) -> (a: u8)
    ensures
        a == if hidden {
            0u8
        } else {
            255u8
        },
{
    if hidden {
        0
    } else {
        255
    }
}

/// The extended style to write so that a taskbar window is layered, if it
/// is not already.
pub fn layered_style_update(ex_style: u32) -> (r: Option<u32>)
    ensures
        r == if ex_style & 0x0008_0000 == 0 {
            Some(ex_style | 0x0008_0000)
        } else {
            None::<u32>
        },
{
    if ex_style & 0x0008_0000 == 0 {
        Some(ex_style | 0x0008_0000)
    } else {
        None
    }
}

/// Window classes of the taskbars (primary, then secondary monitors).
pub fn taskbar_classes() -> (c: [&'static str; 2])
    ensures
        c@[0]@ == "Shell_TrayWnd"@,
        c@[1]@ == "Shell_SecondaryTrayWnd"@,
{
    ["Shell_TrayWnd", "Shell_SecondaryTrayWnd"]
}

// ---------------------------------------------------------------------------
// Crash guard
// ---------------------------------------------------------------------------

/// Only the first crash path (panic or native exception) reports.
pub fn first_crash(fired: &mut bool) -> (report: bool)
    ensures
        report == !*old(fired),
        *final(fired),
{
    let report = !*fired;
    *fired = true;
    report
}

// ---------------------------------------------------------------------------
// Keyboard language badge
// ---------------------------------------------------------------------------

/// Two-letter badge of a keyboard language id.
pub open spec fn language_badge(lang_id: u32) -> Seq<char> {
    if lang_id == 0x0409 {
        "en"@
    } else if lang_id == 0x0419 {
        "ru"@
    } else if lang_id == 0x040C {
        "fr"@
    } else if lang_id == 0x0407 {
        "de"@
    } else if lang_id == 0x0410 {
        "it"@
    } else if lang_id == 0x040A {
        "es"@
    } else if lang_id == 0x0415 {
        "pl"@
    } else if lang_id == 0x0422 {
        "uk"@
    } else {
        "??"@
    }
}

/// The language badge of the foreground keyboard layout (`HKL`, whose low
/// word is the language id), upper-cased while Caps Lock is on (low bit of
/// its key state).
pub fn get_language(hkl: usize, caps_lock_state: i16) -> (r: String)
    ensures
        r@ == if caps_lock_state & 1 != 0 {
            ascii_upper_seq(language_badge((hkl & 0xFFFF) as u32))
        } else {
            language_badge((hkl & 0xFFFF) as u32)
        },
{
    let lang_id = (hkl & 0xFFFF) as u32;
    let code = match lang_id {
        0x0409 => "en",
        0x0419 => "ru",
        0x040C => "fr",
        0x0407 => "de",
        0x0410 => "it",
        0x040A => "es",
        0x0415 => "pl",
        0x0422 => "uk",
        _ => "??",
    };
    if caps_lock_state & 1 != 0 {
        str_ascii_upper(code)
    } else {
        code.to_owned()
    }
}

// ---------------------------------------------------------------------------
// Autostart
// ---------------------------------------------------------------------------

/// File names in the Startup folder that start the shell (current names,
/// then the names used before the rename).
pub fn startup_entry_names() -> (n: [&'static str; 4])
    ensures
        n@[0]@ == "FlatUI Hush.bat"@,
        n@[1]@ == "FlatUI Hush.lnk"@,
        n@[2]@ == "FlatUI.bat"@,
        n@[3]@ == "FlatUI.lnk"@,
{
    ["FlatUI Hush.bat", "FlatUI Hush.lnk", "FlatUI.bat", "FlatUI.lnk"]
}

/// PowerShell command that writes the autostart shortcut.
pub fn startup_shortcut_script(lnk_path: &str, exe_path: &str, exe_dir: &str) -> (r: String)
    ensures
        r@ == "$ws = New-Object -ComObject WScript.Shell; $s = $ws.CreateShortcut('"@ + lnk_path@
            + "'); $s.TargetPath = '"@ + exe_path@ + "'; $s.WorkingDirectory = '"@ + exe_dir@
            + "'; $s.Save()"@,
{
    let mut r = String::new();
    r.append("$ws = New-Object -ComObject WScript.Shell; $s = $ws.CreateShortcut('");
    r.append(lnk_path);
    r.append("'); $s.TargetPath = '");
    r.append(exe_path);
    r.append("'; $s.WorkingDirectory = '");
    r.append(exe_dir);
    r.append("'; $s.Save()");
    r
}

/// Batch file used when the shortcut cannot be written.
pub fn startup_batch(exe_dir: &str, exe_path: &str) -> (r: String)
    ensures
        r@ == "@echo off\ncd /d \""@ + exe_dir@ + "\"\nstart \"\" \""@ + exe_path@ + "\""@,
{
    let mut r = String::new();
    r.append("@echo off\ncd /d \"");
    r.append(exe_dir);
    r.append("\"\nstart \"\" \"");
    r.append(exe_path);
    r.append("\"");
    r
}

// ---------------------------------------------------------------------------
// Start-up and the full-screen watch
// ---------------------------------------------------------------------------

/// Whether the command line asks for a clean start (`-rs` anywhere).
pub fn wants_reset(args: &Vec<String>) -> (b: bool)
    ensures
        b == exists|i: int| 0 <= i < args@.len() && args@[i]@ == "-rs"@,
{
    let mut i: usize = 0;
    while i < args.len()
        invariant
            i <= args@.len(),
            forall|j: int| 0 <= j < i ==> args@[j]@ != "-rs"@,
        decreases args@.len() - i,
    {
        if crate::text::str_equal(args[i].as_str(), "-rs") {
            return true;
        }
        i += 1;
    }
    false
}

/// Closing the taskbar window is refused; other windows close normally.
pub fn close_is_prevented(label: &str) -> (b: bool)
    ensures
        b == (label@ == "taskbar"@),
{
    crate::text::str_equal(label, "taskbar")
}

/// What one full-screen poll changes: the custom taskbar hides while a
/// full-screen window is in front and shows again afterwards (unless the
/// native taskbar is the one in use).
#[derive(Clone, Copy, Debug, PartialEq, Eq, Structural)]
pub struct FullscreenStep {
    /// The full-screen state changed (and is announced to the frontend).
    pub changed: bool,
    pub hide_taskbar: bool,
    pub show_taskbar: bool,
}

pub fn fullscreen_step(was_hidden: bool, fullscreen: bool, native_visible: bool) -> (r: (bool, FullscreenStep))
    ensures
        r.0 == fullscreen,
        r.1.changed == (fullscreen != was_hidden),
        r.1.hide_taskbar == (fullscreen != was_hidden && fullscreen),
        r.1.show_taskbar == (fullscreen != was_hidden && !fullscreen && !native_visible),
{
    if fullscreen == was_hidden {
        return (was_hidden, FullscreenStep { changed: false, hide_taskbar: false, show_taskbar: false });
    }
    (
        fullscreen,
        FullscreenStep {
            changed: true,
            hide_taskbar: fullscreen,
            show_taskbar: !fullscreen && !native_visible,
        },
    )
}

} // verus!
