use flatui_lib::app_state::{
    activate_or_launch, merge_app_order, merge_running, mark_foreground, order_apps,
    parse_run_id, pinned_app, pinned_shortcut_file, reconcile_blacklist, running_app,
    running_hwnds, set_blacklisted, shell_execute_succeeded, AppLaunch, AppState,
    BlacklistEntry, TaskbarApp,
};
use flatui_lib::desktop::{candidate_name, launch_target, new_item_name, scan_desktop, DesktopEntry};
use flatui_lib::app_state::DesktopItem;
use flatui_lib::peek::WindowWithExe;

fn win(hwnd: usize, title: &str, exe: &str) -> WindowWithExe {
    WindowWithExe {
        hwnd,
        title: title.to_string(),
        icon_data_url: None,
        exe_path: exe.to_string(),
        pid: 1,
    }
}

fn entry(exe: &str, title: Option<&str>, hwnd: usize) -> BlacklistEntry {
    BlacklistEntry { exe_path: exe.to_string(), title: title.map(|t| t.to_string()), hwnd }
}

fn view(es: &[BlacklistEntry]) -> Vec<(String, Option<String>, usize)> {
    es.iter().map(|e| (e.exe_path.clone(), e.title.clone(), e.hwnd)).collect()
}

fn ids(apps: &[TaskbarApp]) -> Vec<String> {
    apps.iter().map(|a| a.id.clone()).collect()
}

#[test]
fn fresh_state_is_empty() {
    let s = AppState::new();
    assert!(s.taskbar_apps.is_empty());
    assert!(s.desktop_items.is_empty());
    assert!(s.blacklisted.is_empty());
    assert!(s.blacklisted_hwnds.is_empty());
    assert!(s.app_order.is_empty());
}

#[test]
fn blacklist_reconciles_with_open_windows() {
    let es = vec![entry("", Some("ghost"), 3), entry("C:\\a.exe", None, 0), entry("C:\\b.exe", Some("B"), 44)];
    let ws = vec![win(10, "A one", "C:\\a.exe"), win(11, "A two", "C:\\a.exe")];
    let (kept, hwnds) = reconcile_blacklist(&es, &ws);
    assert_eq!(
        view(&kept),
        vec![
            ("C:\\a.exe".to_string(), Some("A one".to_string()), 10),
            ("C:\\b.exe".to_string(), Some("B".to_string()), 0)
        ]
    );
    assert_eq!(hwnds, vec![10]);
    // refreshing again changes nothing
    let (again, hwnds2) = reconcile_blacklist(&kept, &ws);
    assert_eq!(view(&again), view(&kept));
    assert_eq!(hwnds2, hwnds);
}

#[test]
fn blacklisting_and_unblacklisting() {
    let ws = vec![win(10, "A", "C:\\a.exe"), win(20, "B", "C:\\b.exe")];
    let mut bl = vec![entry("C:\\b.exe", Some("B"), 20)];
    let before = view(&bl);
    set_blacklisted(&mut bl, &ws, 10, true);
    assert_eq!(view(&bl).len(), 2);
    assert_eq!(view(&bl)[1], ("C:\\a.exe".to_string(), Some("A".to_string()), 10));
    // already listed: nothing changes
    set_blacklisted(&mut bl, &ws, 10, true);
    assert_eq!(view(&bl).len(), 2);
    // un-blacklisting restores the list
    set_blacklisted(&mut bl, &ws, 10, false);
    assert_eq!(view(&bl), before);
    // unknown window: nothing changes
    set_blacklisted(&mut bl, &ws, 99, false);
    assert_eq!(view(&bl), before);
}

#[test]
fn taskbar_ids() {
    let p = pinned_app("Editor".to_string(), None);
    assert_eq!(p.id, "pin:Editor");
    assert!(p.pinned && !p.running);
    let r = running_app("Doc - Editor".to_string(), None, -12);
    assert_eq!(r.id, "run:-12");
    assert!(r.running && !r.pinned);
    assert_eq!(parse_run_id("run:4242"), Some(4242));
    assert_eq!(parse_run_id("run:+7"), Some(7));
    assert_eq!(parse_run_id("run:x"), None);
    assert_eq!(parse_run_id("pin:5"), None);
}

#[test]
fn running_apps_join_pinned_ones() {
    let mut apps = vec![pinned_app("Editor".to_string(), None)];
    let running = vec![
        running_app("editor".to_string(), None, 5),
        running_app("Viewer".to_string(), None, 6),
    ];
    merge_running(&mut apps, running);
    assert_eq!(ids(&apps), vec!["pin:Editor", "run:6"]);
    assert_eq!(running_hwnds(&apps), vec![6]);
    mark_foreground(&mut apps, 77, &[(6, 77)]);
    assert!(apps[1].is_foreground);
    assert!(!apps[0].is_foreground);
}

#[test]
fn icon_order_is_kept_across_rescans() {
    let apps = vec![
        running_app("A".to_string(), None, 1),
        running_app("B".to_string(), None, 2),
        running_app("C".to_string(), None, 3),
    ];
    let order = vec!["run:3".to_string(), "run:9".to_string(), "run:1".to_string()];
    let merged = merge_app_order(&order, &apps);
    assert_eq!(merged, vec!["run:3", "run:1", "run:2"]);
    assert_eq!(ids(&order_apps(&merged, &apps)), vec!["run:3", "run:1", "run:2"]);
}

#[test]
fn taskbar_click_actions() {
    assert_eq!(activate_or_launch("pin:My App"), AppLaunch::Pinned("My App".to_string()));
    assert_eq!(activate_or_launch("run:1234"), AppLaunch::Window(1234));
    assert_eq!(activate_or_launch("run:0"), AppLaunch::BadHandle);
    assert_eq!(activate_or_launch("run:abc"), AppLaunch::BadHandle);
    assert_eq!(activate_or_launch("tray:1"), AppLaunch::UnknownId);
    assert_eq!(pinned_shortcut_file("My App"), "My App.lnk");
    assert!(shell_execute_succeeded(33));
    assert!(!shell_execute_succeeded(32));
}

fn dentry(path: &str, stem: Option<&str>, attrs: Option<u32>, is_dir: bool) -> DesktopEntry {
    DesktopEntry {
        path: path.to_string(),
        stem: stem.map(|s| s.to_string()),
        file_name: Some(path.rsplit('\\').next().unwrap().to_string()),
        attributes: attrs,
        is_dir,
    }
}

#[test]
fn desktop_grid_folders_first_then_name() {
    let es = vec![
        dentry("C:\\D\\zeta.txt", Some("zeta"), Some(0x20), false),
        dentry("C:\\D\\Beta", Some("Beta"), Some(0x10), true),
        dentry("C:\\D\\hidden.ini", Some("hidden"), Some(0x2 | 0x20), false),
        dentry("C:\\D\\alpha.lnk", Some("alpha"), None, false),
        dentry("C:\\D\\.cfg", None, Some(0x20), false),
        dentry("C:\\P\\Alpha.url", Some("Alpha"), Some(0x20), false),
    ];
    let items = scan_desktop(&es);
    let names: Vec<&str> = items.iter().map(|i| i.name.as_str()).collect();
    assert_eq!(names, vec!["Beta", ".cfg", "alpha", "Alpha", "zeta"]);
    assert!(items[0].is_folder);
    assert_eq!(items[2].id, "C:\\D\\alpha.lnk");
    assert_eq!(items[2].path, "C:\\D\\alpha.lnk");
    assert!(items.iter().all(|i| i.icon_data_url.is_none()));
}

#[test]
fn new_item_candidate_names() {
    assert_eq!(candidate_name("Report", Some("txt"), 2), "Report (2).txt");
    assert_eq!(candidate_name("New folder", None, 3), "New folder (3)");
}

fn item(id: &str, path: &str) -> DesktopItem {
    DesktopItem {
        id: id.to_string(),
        name: "x".to_string(),
        path: path.to_string(),
        icon_data_url: None,
        is_folder: false,
    }
}

#[test]
fn desktop_click_targets_exact_item() {
    let items = vec![item("C:\\D\\a", "C:\\D\\a"), item("C:\\D\\b", "C:\\Moved\\b")];
    assert_eq!(launch_target(&items, "C:\\D\\b", false), Some("C:\\Moved\\b".to_string()));
    assert_eq!(launch_target(&items, "C:\\D\\new", true), Some("C:\\D\\new".to_string()));
    assert_eq!(launch_target(&items, "C:\\D\\gone", false), None);
}

#[test]
fn running_handles_in_taskbar_order() {
    let app = |id: &str, running: bool| TaskbarApp {
        id: id.to_string(),
        name: id.to_string(),
        icon_data_url: None,
        running,
        pinned: !running,
        is_foreground: false,
    };
    let apps = vec![
        app("run:12", true),
        app("pin:Mail", false),
        app("run:x", true),
        app("run:-3", true),
        app("run:99", false),
    ];
    assert_eq!(running_hwnds(&apps), vec![12, -3]);
    assert_eq!(running_hwnds(&[]), Vec::<isize>::new());
}

#[test]
fn new_item_names_skip_taken_ones() {
    let taken = |v: &[&str]| v.iter().map(|s| s.to_string()).collect::<Vec<String>>();
    assert_eq!(new_item_name("Notes.txt", "Notes", Some("txt"), &taken(&["a.txt"])), "Notes.txt");
    assert_eq!(
        new_item_name("Notes.txt", "Notes", Some("txt"), &taken(&["notes.TXT", "Notes (2).txt"])),
        "Notes (3).txt"
    );
    assert_eq!(
        new_item_name("New folder", "New folder", None, &taken(&["New folder", "new FOLDER (3)"])),
        "New folder (2)"
    );
    assert_eq!(
        new_item_name("x", "x", None, &taken(&["x", "X (2)", "x (3)", "x (4)"])),
        "x (5)"
    );
    assert_eq!(new_item_name("x", "x", None, &vec![]), "x");
}
