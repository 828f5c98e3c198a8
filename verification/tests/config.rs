use flatui_lib::icon_cache::{IconCache, ICON_CACHE_EVICT, ICON_CACHE_MAX, ICON_TTL_NS};
use flatui_lib::persist::{
    apply_settings_update, config_file_names, default_settings, default_tables_hold_ms,
    default_themes, default_true, get_active_theme, resolve_loaded_themes, set_active_theme,
    SettingsUpdate, Theme, ThemesConfig,
};
use flatui_lib::positions::{persist_table_position, TablePositions};

fn empty_update() -> SettingsUpdate {
    SettingsUpdate {
        theme: None,
        auto_fullscreen: None,
        refresh_interval: None,
        cube_animation: None,
        tables_hold_ms: None,
        clock_24h: None,
        minimize_on_launcher: None,
        user_name: None,
        show_desktop_grid: None,
        show_native_taskbar: None,
    }
}

#[test]
fn config_files() {
    assert_eq!(
        config_file_names(),
        [
            "blacklist.json",
            "clipboard.json",
            "notes.txt",
            "widgets.json",
            "widget_visibility.json",
            "icon_recolor.json",
            "settings.json",
            "themes.json",
            "tables.json"
        ]
    );
}

#[test]
fn default_settings_values() {
    let s = default_settings();
    assert_eq!(s.theme, "material3-dark");
    assert!(s.auto_fullscreen);
    assert_eq!(s.refresh_interval, 2);
    assert!(s.cube_animation);
    assert_eq!(s.tables_hold_ms, 220);
    assert!(s.clock_24h);
    assert!(s.minimize_on_launcher);
    assert_eq!(s.user_name, "");
    assert!(s.show_desktop_grid);
    assert!(!s.show_native_taskbar);
    assert_eq!(default_tables_hold_ms(), 220);
    assert!(default_true());
}

#[test]
fn settings_update_merges_present_fields() {
    let mut s = default_settings();
    let mut u = empty_update();
    u.theme = Some("sand-cream".to_string());
    u.tables_hold_ms = Some(5);
    u.user_name = Some("abcdefghijklmnopqrstuvwxyz0123456789".to_string());
    u.clock_24h = Some(false);
    apply_settings_update(&mut s, u);
    assert_eq!(s.theme, "sand-cream");
    assert_eq!(s.tables_hold_ms, 80);
    assert_eq!(s.user_name, "abcdefghijklmnopqrstuvwxyz012345");
    assert!(!s.clock_24h);
    assert_eq!(s.refresh_interval, 2);
    let mut u2 = empty_update();
    u2.tables_hold_ms = Some(99999);
    u2.user_name = Some("Ünïcödé".to_string());
    apply_settings_update(&mut s, u2);
    assert_eq!(s.tables_hold_ms, 1000);
    assert_eq!(s.user_name, "Ünïcödé");
}

#[test]
fn empty_update_changes_nothing() {
    let mut s = default_settings();
    apply_settings_update(&mut s, empty_update());
    let d = default_settings();
    assert_eq!(s.theme, d.theme);
    assert_eq!(s.tables_hold_ms, d.tables_hold_ms);
    assert_eq!(s.user_name, d.user_name);
    assert_eq!(s.show_native_taskbar, d.show_native_taskbar);
}

#[test]
fn same_update_twice_is_same_as_once() {
    let mut u = empty_update();
    u.tables_hold_ms = Some(300);
    u.user_name = Some("x".repeat(40));
    let mut once = default_settings();
    apply_settings_update(&mut once, u);
    let mut u2 = empty_update();
    u2.tables_hold_ms = Some(300);
    u2.user_name = Some("x".repeat(40));
    let snapshot = (once.tables_hold_ms, once.user_name.clone());
    apply_settings_update(&mut once, u2);
    assert_eq!((once.tables_hold_ms, once.user_name.clone()), snapshot);
}

#[test]
fn default_theme_is_active_material3() {
    let c = default_themes();
    assert_eq!(c.themes.len(), 1);
    assert_eq!(c.themes[0].name, "material3-dark");
    assert!(c.themes[0].active);
    assert_eq!(c.themes[0].colors.bg_espresso, "#1C1C1C");
    assert_eq!(c.themes[0].colors.danger_rgb, "201, 122, 116");
    let t = get_active_theme(&c).unwrap();
    assert_eq!(t.name, "material3-dark");
}

fn theme(name: &str, active: bool) -> Theme {
    let mut t = default_themes().themes.remove(0);
    t.name = name.to_string();
    t.active = active;
    t
}

#[test]
fn selecting_a_theme_makes_it_the_active_one() {
    let mut c = ThemesConfig { themes: vec![theme("material3-dark", true), theme("sand-cream", false)] };
    set_active_theme(&mut c, "sand-cream");
    assert!(!c.themes[0].active);
    assert!(c.themes[1].active);
    assert_eq!(get_active_theme(&c).unwrap().name, "sand-cream");
    set_active_theme(&mut c, "missing");
    assert!(get_active_theme(&c).is_none());
}

#[test]
fn loaded_themes_are_migrated() {
    let (c, rewrite) = resolve_loaded_themes(None);
    assert!(rewrite);
    assert_eq!(c.themes[0].name, "material3-dark");
    let old = ThemesConfig { themes: vec![theme("sand-cream", true)] };
    let (c2, rewrite2) = resolve_loaded_themes(Some(old));
    assert!(rewrite2);
    assert_eq!(c2.themes.len(), 1);
    assert_eq!(c2.themes[0].name, "material3-dark");
    let cur = ThemesConfig { themes: vec![theme("sand-cream", true), theme("material3-dark", false)] };
    let (c3, rewrite3) = resolve_loaded_themes(Some(cur));
    assert!(!rewrite3);
    assert_eq!(c3.themes.len(), 2);
    assert_eq!(c3.themes[0].name, "sand-cream");
}

#[test]
fn table_positions_read_back_what_was_written() {
    let mut p = TablePositions::new();
    assert_eq!(p.get("settings"), None);
    persist_table_position(&mut p, "settings", 1420, 260);
    p.insert("widgets".to_string(), 320, 180);
    assert_eq!(p.get("settings"), Some((1420, 260)));
    persist_table_position(&mut p, "settings", -5, 7);
    assert_eq!(p.get("settings"), Some((-5, 7)));
    assert_eq!(p.get("widgets"), Some((320, 180)));
    assert_eq!(p.entries().len(), 2);
}

#[test]
fn parked_moves_flush_latest_position() {
    let mut saved = TablePositions::from_pairs(vec![
        ("settings".to_string(), 1, 1),
        ("desktop".to_string(), 9, 9),
    ]);
    let mut parked = TablePositions::new();
    parked.insert("settings".to_string(), 10, 10);
    parked.insert("widgets".to_string(), 20, 20);
    parked.insert("settings".to_string(), 11, 12);
    saved.merge(&parked);
    assert_eq!(saved.get("settings"), Some((11, 12)));
    assert_eq!(saved.get("widgets"), Some((20, 20)));
    assert_eq!(saved.get("desktop"), Some((9, 9)));
    let from_dupes = TablePositions::from_pairs(vec![("a".to_string(), 1, 1), ("a".to_string(), 2, 2)]);
    assert_eq!(from_dupes.get("a"), Some((2, 2)));
    assert_eq!(from_dupes.entries().len(), 1);
}

#[test]
fn icon_cache_lifetime() {
    let mut c = IconCache::new();
    assert_eq!(c.lookup("C:\\a.exe", 0), None);
    c.insert("C:\\a.exe".to_string(), Some("data:a".to_string()), 1_000);
    c.insert("C:\\broken.lnk".to_string(), None, 1_000);
    assert_eq!(c.lookup("C:\\a.exe", 1_000 + ICON_TTL_NS - 1), Some(Some("data:a".to_string())));
    assert_eq!(c.lookup("C:\\broken.lnk", 2_000), Some(None));
    assert_eq!(c.lookup("C:\\a.exe", 1_000 + ICON_TTL_NS), None);
    // a clock reading before the capture counts as no time elapsed
    assert_eq!(c.lookup("C:\\a.exe", 0), Some(Some("data:a".to_string())));
    c.insert("C:\\a.exe".to_string(), Some("data:b".to_string()), 5_000);
    assert_eq!(c.len(), 2);
    assert_eq!(c.lookup("C:\\a.exe", 5_000), Some(Some("data:b".to_string())));
}

#[test]
fn icon_cache_evicts_oldest_batch_when_full() {
    let mut c = IconCache::new();
    for i in 0..ICON_CACHE_MAX {
        c.insert(format!("p{}", i), None, (i as u64) * 10);
    }
    assert_eq!(c.len(), ICON_CACHE_MAX);
    c.insert("new".to_string(), None, 100_000);
    assert_eq!(c.len(), ICON_CACHE_MAX - ICON_CACHE_EVICT + 1);
    assert_eq!(c.lookup("p0", 100_000), None);
    assert_eq!(c.lookup("p63", 100_000), None);
    assert_eq!(c.lookup("p64", 100_000), Some(None));
    assert_eq!(c.lookup("new", 100_000), Some(None));
}

#[test]
fn icon_cache_evicts_the_oldest_wherever_they_sit() {
    let mut c = IconCache::new();
    // capture times run backwards: the last inserted entries are the oldest
    for i in 0..ICON_CACHE_MAX {
        c.insert(format!("p{}", i), Some(format!("i{}", i)), ((ICON_CACHE_MAX - i) as u64) * 10);
    }
    c.insert("new".to_string(), None, 5_000);
    assert_eq!(c.len(), ICON_CACHE_MAX - ICON_CACHE_EVICT + 1);
    for i in 0..ICON_CACHE_MAX {
        let found = c.lookup(&format!("p{}", i), 5_000);
        if i >= ICON_CACHE_MAX - ICON_CACHE_EVICT {
            assert_eq!(found, None, "p{} is among the oldest", i);
        } else {
            assert_eq!(found, Some(Some(format!("i{}", i))), "p{} is kept", i);
        }
    }
    assert_eq!(c.lookup("new", 5_000), Some(None));
}
