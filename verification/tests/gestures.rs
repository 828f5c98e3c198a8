use flatui_lib::hotkey::{
    hold_delay_ms, key_motion, on_hold_elapsed, on_key_event, Gesture, KeyEvent, KeyLatch,
    KeyMotion, VK_LWIN, VK_MENU, VK_RWIN, WM_KEYDOWN, WM_KEYUP, WM_SYSKEYDOWN, WM_SYSKEYUP,
};
use flatui_lib::launcher::{centered_position, LauncherState};
use flatui_lib::tables::{
    close_table_label, moved_table_key, table_name_from_id, table_open_action, PickerState,
    ReleaseOutcome, TableOpen,
};

fn ev(message: u32, vk: u16) -> KeyEvent {
    KeyEvent { is_action: true, message, vk, injected: false }
}

#[test]
fn win_tap_toggles_launcher() {
    let mut latch = KeyLatch::new();
    let down = on_key_event(&mut latch, ev(WM_KEYDOWN, VK_LWIN));
    assert!(down.suppress);
    assert!(down.start_hold_detector);
    assert_eq!(down.fire, None);
    let up = on_key_event(&mut latch, ev(WM_KEYUP, VK_LWIN));
    assert!(up.suppress);
    assert_eq!(up.fire, Some(Gesture::Tap));
    assert_eq!(latch, KeyLatch::new());
}

#[test]
fn win_hold_then_release_opens_picker_table() {
    let mut latch = KeyLatch::new();
    on_key_event(&mut latch, ev(WM_KEYDOWN, VK_RWIN));
    assert_eq!(on_hold_elapsed(&mut latch, true), Some(true));
    assert!(latch.tables_open);
    // a second wake-up of the detector does nothing
    assert_eq!(on_hold_elapsed(&mut latch, false), None);
    let up = on_key_event(&mut latch, ev(WM_KEYUP, VK_RWIN));
    assert_eq!(up.fire, Some(Gesture::TablesRelease));
    assert!(up.suppress);
    assert!(!latch.win_pending && !latch.tables_open);
}

#[test]
fn hold_detector_after_release_does_nothing() {
    let mut latch = KeyLatch::new();
    on_key_event(&mut latch, ev(WM_KEYDOWN, VK_LWIN));
    on_key_event(&mut latch, ev(WM_KEYUP, VK_LWIN));
    assert_eq!(on_hold_elapsed(&mut latch, false), None);
    assert!(!latch.tables_open);
}

#[test]
fn win_combo_goes_native() {
    let mut latch = KeyLatch::new();
    on_key_event(&mut latch, ev(WM_KEYDOWN, VK_LWIN));
    let d = on_key_event(&mut latch, ev(WM_KEYDOWN, 0x44));
    assert!(d.reinject_win_down);
    assert!(!d.suppress);
    assert_eq!(d.fire, None);
    let up = on_key_event(&mut latch, ev(WM_KEYUP, VK_LWIN));
    assert!(!up.suppress);
    assert_eq!(up.fire, None);
}

#[test]
fn combo_while_picker_open_dismisses_it() {
    let mut latch = KeyLatch::new();
    on_key_event(&mut latch, ev(WM_KEYDOWN, VK_LWIN));
    on_hold_elapsed(&mut latch, false);
    let e = on_key_event(&mut latch, ev(WM_KEYDOWN, 0x45));
    assert_eq!(e.fire, Some(Gesture::TablesCancel));
    assert!(e.reinject_win_down);
    assert!(!latch.tables_open && !latch.win_pending);
}

#[test]
fn standalone_alt_suppresses_menu_bar() {
    let mut latch = KeyLatch::new();
    let d = on_key_event(&mut latch, ev(WM_SYSKEYDOWN, VK_MENU));
    assert!(!d.suppress && !d.inject_dummy_keyup);
    let u = on_key_event(&mut latch, ev(WM_SYSKEYUP, VK_MENU));
    assert!(u.inject_dummy_keyup);
    assert!(!u.suppress);
}

#[test]
fn alt_combo_keeps_menu_shortcut() {
    let mut latch = KeyLatch::new();
    on_key_event(&mut latch, ev(WM_SYSKEYDOWN, VK_MENU));
    on_key_event(&mut latch, ev(WM_SYSKEYDOWN, 0x46));
    let u = on_key_event(&mut latch, ev(WM_SYSKEYUP, VK_MENU));
    assert!(!u.inject_dummy_keyup);
}

#[test]
fn injected_and_non_action_events_pass_untouched() {
    let mut latch = KeyLatch::new();
    let inj = KeyEvent { is_action: true, message: WM_KEYDOWN, vk: VK_LWIN, injected: true };
    let a = on_key_event(&mut latch, inj);
    assert!(!a.suppress && !a.start_hold_detector);
    let na = KeyEvent { is_action: false, message: WM_KEYDOWN, vk: VK_LWIN, injected: false };
    let b = on_key_event(&mut latch, na);
    assert!(!b.suppress);
    assert_eq!(latch, KeyLatch::new());
}

#[test]
fn key_motion_classifies_messages() {
    assert_eq!(key_motion(WM_KEYDOWN), KeyMotion::Down);
    assert_eq!(key_motion(WM_SYSKEYDOWN), KeyMotion::Down);
    assert_eq!(key_motion(WM_KEYUP), KeyMotion::Up);
    assert_eq!(key_motion(WM_SYSKEYUP), KeyMotion::Up);
    assert_eq!(key_motion(0x0200), KeyMotion::Other);
}

#[test]
fn hold_threshold_is_clamped() {
    assert_eq!(hold_delay_ms(10), 80);
    assert_eq!(hold_delay_ms(80), 80);
    assert_eq!(hold_delay_ms(220), 220);
    assert_eq!(hold_delay_ms(1000), 1000);
    assert_eq!(hold_delay_ms(5000), 1000);
}

#[test]
fn launcher_toggle_alternates_and_cancels_fallback() {
    let mut s = LauncherState::new();
    assert!(!s.open);
    let e1 = s.toggle(true);
    assert!(e1.show_flatlight);
    assert!(s.open);
    let e2 = s.toggle(true);
    assert!(e2.emit_hidden);
    let token = e2.fallback_token.unwrap();
    assert!(!s.open);
    assert!(s.fallback_should_hide(token));
    // re-open before the fallback fires: the pending hide is cancelled
    s.show(true);
    assert!(!s.fallback_should_hide(token));
}

#[test]
fn launcher_late_close_report_is_ignored() {
    let mut s = LauncherState::new();
    s.show(true);
    let e = s.close_finished();
    assert!(!e.hide_flatlight);
    assert!(s.open);
    s.hide_animated();
    let f = s.close_finished();
    assert!(f.hide_flatlight);
}

#[test]
fn launcher_close_variants() {
    let mut s = LauncherState::new();
    let e = s.close(true);
    assert!(e.hide_screenshot && !e.emit_hidden);
    s.show(true);
    let i = s.close_instantly();
    assert!(i.hide_flatlight && i.emit_hidden);
    assert!(!s.open);
    let j = s.close_instantly();
    assert!(!j.hide_flatlight && !j.emit_hidden);
    let h = s.hide_animated();
    assert_eq!(h.fallback_token, None);
}

#[test]
fn launcher_show_without_window_changes_nothing() {
    let mut s = LauncherState::new();
    let before = s;
    let e = s.show(false);
    assert!(!e.show_flatlight);
    assert_eq!(s, before);
}

#[test]
fn launcher_centered_position() {
    assert_eq!(centered_position(0, 0, 1920, 1080, 800, 600), (560, 160));
    assert_eq!(centered_position(-1920, 10, 1920, 1080, 2000, 1200), (-1960, -30));
}

#[test]
fn picker_ids_map_to_tables() {
    assert_eq!(table_name_from_id(1), "taskbar");
    assert_eq!(table_name_from_id(2), "settings");
    assert_eq!(table_name_from_id(3), "widgets");
    assert_eq!(table_name_from_id(4), "flatlight");
    assert_eq!(table_name_from_id(5), "desktop");
    assert_eq!(table_name_from_id(0), "");
    assert_eq!(table_name_from_id(6), "");
}

#[test]
fn release_opens_hovered_table() {
    let mut p = PickerState::new();
    p.show();
    p.set_hover(3);
    assert_eq!(p.release(), ReleaseOutcome::Open(3));
    assert_eq!(p.hovered, 0);
    assert_eq!(table_open_action(table_name_from_id(3)), TableOpen::Widgets);
    p.set_hover(0);
    assert_eq!(p.release(), ReleaseOutcome::Dismiss);
    p.set_hover(42);
    assert_eq!(p.hovered, 5);
    p.set_hover(-3);
    assert_eq!(p.hovered, 0);
}

#[test]
fn reshow_cancels_delayed_picker_hide() {
    let mut p = PickerState::new();
    p.show();
    let t = p.hide_animated(true).unwrap();
    assert!(p.delayed_hide_applies(t));
    p.show();
    assert!(!p.delayed_hide_applies(t));
    assert_eq!(p.hide_animated(false), None);
}

#[test]
fn table_actions_and_labels() {
    assert_eq!(table_open_action("taskbar"), TableOpen::TaskbarStrip);
    assert_eq!(table_open_action("settings"), TableOpen::Settings);
    assert_eq!(table_open_action("desktop"), TableOpen::Desktop);
    assert_eq!(table_open_action("flatlight"), TableOpen::Flatlight);
    assert_eq!(table_open_action("nope"), TableOpen::Nothing);
    assert_eq!(close_table_label("taskbar"), Some("table-taskbar"));
    assert_eq!(close_table_label("tables"), Some("tables"));
    assert_eq!(close_table_label("flatlight"), None);
    assert_eq!(moved_table_key("table-widgets"), Some("widgets"));
    assert_eq!(moved_table_key("table-desktop"), Some("desktop"));
    assert_eq!(moved_table_key("table-taskbar"), None);
}
