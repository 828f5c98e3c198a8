use flatui_lib::winrules::{
    caption_message_result, click_closes_strip, contains_point, exe_file_units, hwnd_listed,
    is_foreground_fullscreen, is_kill_target, is_shell_exe, landing_size, lists_in_switcher,
    lists_on_taskbar, no_activate_ex_style, origin_size, picker_ex_style, popup_style,
    process_exe_path, should_minimize, watched_name_units, AnimationGuard, ForegroundInfo,
    OriginRect, Rect, WM_LBUTTONDOWN, WM_MBUTTONDOWN, WM_RBUTTONDOWN,
};

#[test]
fn overlay_styles() {
    assert_eq!(no_activate_ex_style(0), 0x0800_0088);
    assert_eq!(no_activate_ex_style(0x0800_0088), 0x0800_0088);
    // caption, frame and buttons go; popup comes; visibility follows
    assert_eq!(popup_style(0x00CF_0000 | 0x0100_0000, false), 0x8000_0000 | 0x0100_0000);
    assert_eq!(popup_style(0x00CF_0000, true), 0x8000_0000 | 0x1000_0000);
}

#[test]
fn picker_styles() {
    assert_eq!(picker_ex_style(0x0008_0020 | 0x80, true), 0x80);
    assert_eq!(picker_ex_style(0x0008_0000 | 0x80, false), 0x80 | 0x20);
    // cloaking twice or uncloaking twice is stable
    let hidden = picker_ex_style(0x80, false);
    assert_eq!(picker_ex_style(hidden, false), hidden);
    let shown = picker_ex_style(hidden, true);
    assert_eq!(picker_ex_style(shown, true), shown);
}

#[test]
fn outside_click_closes_strip() {
    let r = Rect { left: 100, top: 100, right: 200, bottom: 400 };
    assert!(contains_point(&r, 100, 100));
    assert!(!contains_point(&r, 200, 150));
    assert!(click_closes_strip(0, WM_LBUTTONDOWN, 0, 77, Some(r), 50, 150));
    assert!(click_closes_strip(0, WM_RBUTTONDOWN, 0, 77, Some(r), 200, 399));
    assert!(click_closes_strip(0, WM_MBUTTONDOWN, 0, 77, Some(r), 150, 400));
    // inside, injected, not a press, no strip, no rect, not an action
    assert!(!click_closes_strip(0, WM_LBUTTONDOWN, 0, 77, Some(r), 150, 150));
    assert!(!click_closes_strip(0, WM_LBUTTONDOWN, 1, 77, Some(r), 50, 50));
    assert!(!click_closes_strip(0, 0x0202, 0, 77, Some(r), 50, 50));
    assert!(!click_closes_strip(0, WM_LBUTTONDOWN, 0, 0, Some(r), 50, 50));
    assert!(!click_closes_strip(0, WM_LBUTTONDOWN, 0, 77, None, 50, 50));
    assert!(!click_closes_strip(1, WM_LBUTTONDOWN, 0, 77, Some(r), 50, 50));
}

fn fg(exe: Option<&str>, w: Option<Rect>) -> ForegroundInfo {
    ForegroundInfo {
        iconic: false,
        pid: 42,
        own_pid: 7,
        exe_path: exe.map(|s| s.to_string()),
        window_rect: w,
        monitor_rect: Some(Rect { left: 0, top: 0, right: 1920, bottom: 1080 }),
    }
}

#[test]
fn fullscreen_detection() {
    let full = Some(Rect { left: -2, top: 2, right: 1918, bottom: 1078 });
    assert!(is_foreground_fullscreen(&fg(Some("C:\\Games\\game.exe"), full)));
    assert!(is_foreground_fullscreen(&fg(None, full)));
    let small = Some(Rect { left: 3, top: 0, right: 1920, bottom: 1080 });
    assert!(!is_foreground_fullscreen(&fg(None, small)));
    assert!(!is_foreground_fullscreen(&fg(Some("C:\\Windows\\EXPLORER.EXE"), full)));
    assert!(!is_foreground_fullscreen(&fg(None, None)));
    let mut own = fg(None, full);
    own.pid = 7;
    assert!(!is_foreground_fullscreen(&own));
    let mut unknown = fg(None, full);
    unknown.pid = 0;
    assert!(!is_foreground_fullscreen(&unknown));
    let mut minimized = fg(None, full);
    minimized.iconic = true;
    assert!(!is_foreground_fullscreen(&minimized));
}

#[test]
fn shell_processes() {
    assert!(is_shell_exe("C:\\Windows\\explorer.exe"));
    assert!(is_shell_exe("C:\\W\\SystemApps\\SearchHost.exe"));
    assert!(is_shell_exe("x\\ApplicationFrameHost.EXE"));
    assert!(!is_shell_exe("C:\\Games\\explorer.exe.bak"));
    assert!(!is_shell_exe("notepad.exe"));
}

#[test]
fn taskbar_window_filter() {
    let bl = vec![5usize, 9];
    assert!(lists_on_taskbar(true, 1, &bl, 0, "Editor"));
    assert!(!lists_on_taskbar(false, 1, &bl, 0, "Editor"));
    assert!(!lists_on_taskbar(true, 9, &bl, 0, "Editor"));
    assert!(!lists_on_taskbar(true, 1, &bl, 0x80, "Tool"));
    assert!(lists_on_taskbar(true, 1, &bl, 0x80 | 0x40000, "Tool with app bit"));
    assert!(!lists_on_taskbar(true, 1, &bl, 0, ""));
    assert!(!lists_on_taskbar(true, 1, &bl, 0, " \u{3000} "));
    assert!(hwnd_listed(&bl, 5));
    assert!(!hwnd_listed(&bl, 6));
}

#[test]
fn switcher_window_filter() {
    assert!(lists_in_switcher(true, 0x40000, "Doc"));
    assert!(!lists_in_switcher(true, 0x80 | 0x40000, "Doc"));
    assert!(!lists_in_switcher(true, 0, "\t"));
    assert!(!lists_in_switcher(false, 0, "Doc"));
}

#[test]
fn minimize_all_filter() {
    assert!(should_minimize(true, 0, false, 10, 20, "Notes"));
    assert!(should_minimize(true, 0, false, 10, 20, ""));
    assert!(!should_minimize(true, 0, false, 10, 20, "Program Manager"));
    assert!(!should_minimize(true, 0x80, false, 10, 20, "Notes"));
    assert!(!should_minimize(true, 0, true, 10, 20, "Notes"));
    assert!(!should_minimize(true, 0, false, 20, 20, "Notes"));
    assert!(!should_minimize(false, 0, false, 10, 20, "Notes"));
}

#[test]
fn process_names_from_snapshots() {
    let name: Vec<u16> = "SearchHost.exe".encode_utf16().collect();
    let mut buf = name.clone();
    buf.push(0);
    buf.push(0x41);
    assert_eq!(exe_file_units(&buf), name);
    assert_eq!(watched_name_units(&buf), name);
    assert_eq!(exe_file_units(&name), name);
    assert!(watched_name_units(&name).is_empty());
    assert!(is_kill_target("searchhost.EXE"));
    assert!(is_kill_target("StartMenuExperienceHost.exe"));
    assert!(is_kill_target("ShellExperienceHost.exe"));
    assert!(is_kill_target("SHELLEXPERIENCEHOST.EXE"));
    assert!(!is_kill_target("ShellExperienceHost"));
    assert_eq!(process_exe_path(Some("D:\\a.exe".to_string()), "a.exe"), "D:\\a.exe");
    assert_eq!(process_exe_path(None, "a.exe"), "C:\\Windows\\System32\\a.exe");
}

#[test]
fn caption_suppression() {
    assert_eq!(caption_message_result(0x86), Some(1));
    assert_eq!(caption_message_result(0x85), Some(0));
    assert_eq!(caption_message_result(0x84), Some(1));
    assert_eq!(caption_message_result(0x0F), None);
}

#[test]
fn restore_animation_guard() {
    let mut g = AnimationGuard::new();
    assert!(g.restore_animated(100));
    assert!(!g.restore_animated(100));
    assert!(g.restore_animated(200));
    g.finished(100);
    assert!(g.restore_animated(100));
    g.finished(999);
    assert!(!g.restore_animated(200));
}

#[test]
fn animation_sizes() {
    assert_eq!(origin_size(&OriginRect { x: 0, y: 0, w: 0, h: -4 }), (1, 1));
    assert_eq!(origin_size(&OriginRect { x: 5, y: 5, w: 48, h: 40 }), (48, 40));
    assert_eq!(landing_size(&Rect { left: 10, top: 20, right: 810, bottom: 620 }), (800, 600));
    assert_eq!(landing_size(&Rect { left: 10, top: 20, right: 10, bottom: 0 }), (1, 1));
}
