use flatui_lib::cpu::{cpu_step, CpuDelta, CpuSample, MIN_BASELINE_NS};
use flatui_lib::system::{
    close_is_prevented, ensure_helpers, find_helper, first_crash, fullscreen_step, get_language,
    helper_names, is_elevated, layered_style_update, relaunch_params, request_elevation,
    run_setup, start, startup_batch, startup_entry_names, startup_shortcut_script, stop,
    taskbar_alpha, taskbar_classes, wants_reset, ElevationOutcome, ExtractAttempt,
    FullscreenStep, SetupGuard,
};

fn strings(v: &[&str]) -> Vec<String> {
    v.iter().map(|s| s.to_string()).collect()
}

#[test]
fn elevation_status() {
    assert!(is_elevated(true, Some(1)));
    assert!(!is_elevated(true, Some(0)));
    assert!(!is_elevated(true, None));
    assert!(!is_elevated(false, Some(1)));
}

#[test]
fn elevation_outcomes() {
    assert_eq!(request_elevation(true, Some(42)), ElevationOutcome::AlreadyElevated);
    assert_eq!(request_elevation(false, Some(42)), ElevationOutcome::Accepted);
    assert_eq!(request_elevation(false, Some(33)), ElevationOutcome::Accepted);
    assert_eq!(request_elevation(false, Some(32)), ElevationOutcome::Declined);
    assert_eq!(request_elevation(false, Some(5)), ElevationOutcome::Declined);
    assert_eq!(request_elevation(false, None), ElevationOutcome::Declined);
}

#[test]
fn relaunch_keeps_arguments() {
    assert_eq!(relaunch_params(&strings(&["flatui.exe"])), None);
    assert_eq!(relaunch_params(&strings(&[])), None);
    assert_eq!(relaunch_params(&strings(&["flatui.exe", "-rs"])), Some("-rs".to_string()));
    assert_eq!(
        relaunch_params(&strings(&["flatui.exe", "-rs", "a b"])),
        Some("-rs a b".to_string())
    );
    assert_eq!(relaunch_params(&strings(&["flatui.exe", ""])), None);
    assert_eq!(relaunch_params(&strings(&["flatui.exe", "", ""])), Some(" ".to_string()));
}

#[test]
fn helpers_extraction_and_lookup() {
    assert_eq!(helper_names(), ["HideTaskbar.exe", "flatwin.exe"]);
    let attempts = vec![
        ExtractAttempt { path: "C:\\bin\\HideTaskbar.exe".to_string(), written: false, exists: true },
        ExtractAttempt { path: "C:\\bin\\flatwin.exe".to_string(), written: false, exists: false },
    ];
    assert_eq!(ensure_helpers(&attempts), vec!["C:\\bin\\HideTaskbar.exe".to_string()]);
    let fallbacks = vec![("C:\\app\\HideTaskbar.exe".to_string(), false), ("C:\\app\\resources\\HideTaskbar.exe".to_string(), true)];
    assert_eq!(
        find_helper(Some("C:\\bin\\HideTaskbar.exe".to_string()), true, &fallbacks),
        Some("C:\\bin\\HideTaskbar.exe".to_string())
    );
    assert_eq!(
        find_helper(Some("C:\\bin\\HideTaskbar.exe".to_string()), false, &fallbacks),
        Some("C:\\app\\resources\\HideTaskbar.exe".to_string())
    );
    assert_eq!(find_helper(None, false, &vec![("x".to_string(), false)]), None);
}

#[test]
fn setup_runs_once() {
    let mut g = SetupGuard::new();
    let first = g.begin();
    assert!(first);
    let steps = run_setup(first, Some(true));
    assert_eq!(steps, vec![("Hiding taskbar...".to_string(), true)]);
    let again = g.begin();
    assert!(!again);
    assert!(run_setup(again, Some(true)).is_empty());
    assert_eq!(run_setup(true, None), vec![("Hiding taskbar...".to_string(), false)]);
}

#[test]
fn hider_starts_one_monitor() {
    let mut running = false;
    assert!(start(&mut running));
    assert!(!start(&mut running));
    stop(&mut running);
    assert!(!running);
    assert!(start(&mut running));
}

#[test]
fn taskbar_hiding_details() {
    assert_eq!(taskbar_alpha(true), 0);
    assert_eq!(taskbar_alpha(false), 255);
    assert_eq!(layered_style_update(0x100), Some(0x80100));
    assert_eq!(layered_style_update(0x80100), None);
    assert_eq!(taskbar_classes(), ["Shell_TrayWnd", "Shell_SecondaryTrayWnd"]);
}

#[test]
fn only_first_crash_reports() {
    let mut fired = false;
    assert!(first_crash(&mut fired));
    assert!(!first_crash(&mut fired));
}

#[test]
fn language_badge() {
    assert_eq!(get_language(0x0409_0409, 0), "en");
    assert_eq!(get_language(0x0419, 1), "RU");
    assert_eq!(get_language(0x0422, -127), "UK");
    assert_eq!(get_language(0x0411, 0), "??");
    assert_eq!(get_language(0x0411, 1), "??");
}

#[test]
fn autostart_texts() {
    assert_eq!(
        startup_entry_names(),
        ["FlatUI Hush.bat", "FlatUI Hush.lnk", "FlatUI.bat", "FlatUI.lnk"]
    );
    assert_eq!(
        startup_shortcut_script("C:\\S\\FlatUI Hush.lnk", "C:\\A\\flatui.exe", "C:\\A"),
        "$ws = New-Object -ComObject WScript.Shell; $s = $ws.CreateShortcut('C:\\S\\FlatUI Hush.lnk'); $s.TargetPath = 'C:\\A\\flatui.exe'; $s.WorkingDirectory = 'C:\\A'; $s.Save()"
    );
    assert_eq!(
        startup_batch("C:\\A", "C:\\A\\flatui.exe"),
        "@echo off\ncd /d \"C:\\A\"\nstart \"\" \"C:\\A\\flatui.exe\""
    );
}

#[test]
fn start_up_flags() {
    assert!(wants_reset(&strings(&["flatui.exe", "-x", "-rs"])));
    assert!(!wants_reset(&strings(&["flatui.exe", "-RS"])));
    assert!(close_is_prevented("taskbar"));
    assert!(!close_is_prevented("launcher"));
}

#[test]
fn fullscreen_watch() {
    assert_eq!(
        fullscreen_step(false, true, false),
        (true, FullscreenStep { changed: true, hide_taskbar: true, show_taskbar: false })
    );
    assert_eq!(
        fullscreen_step(true, false, false),
        (false, FullscreenStep { changed: true, hide_taskbar: false, show_taskbar: true })
    );
    assert_eq!(
        fullscreen_step(true, false, true),
        (false, FullscreenStep { changed: true, hide_taskbar: false, show_taskbar: false })
    );
    assert_eq!(
        fullscreen_step(true, true, false),
        (true, FullscreenStep { changed: false, hide_taskbar: false, show_taskbar: false })
    );
}

#[test]
fn cpu_baseline_bookkeeping() {
    let s = |at_ns: u64, idle: u64, kernel: u64, user: u64| CpuSample { at_ns, idle, kernel, user };
    let first = s(1_000, 50, 100, 40);
    assert_eq!(cpu_step(None, first), (Some(first), None));

    // too soon: measured against the old baseline, which stays
    let soon = s(1_000 + MIN_BASELINE_NS - 1, 60, 130, 50);
    assert_eq!(cpu_step(Some(first), soon), (Some(first), Some(CpuDelta { idle: 10, total: 40 })));

    // late enough: the baseline moves on
    let later = s(1_000 + MIN_BASELINE_NS, 80, 200, 90);
    assert_eq!(cpu_step(Some(first), later), (Some(later), Some(CpuDelta { idle: 30, total: 150 })));

    // counters that went back count as no ticks; a clock that went back as no time
    let back = s(0, 10, 90, 10);
    assert_eq!(cpu_step(Some(first), back), (Some(first), Some(CpuDelta { idle: 0, total: 0 })));
}
