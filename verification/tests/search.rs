use flatui_lib::search::{is_search_query, search_programs, ProgramEntry, SearchResult, MAX_RESULTS};

fn entry(path: &str, stem: &str, ext: &str, file_name: &str, is_dir: bool) -> ProgramEntry {
    ProgramEntry {
        path: path.to_string(),
        stem: stem.to_string(),
        extension: ext.to_string(),
        file_name: Some(file_name.to_string()),
        is_dir,
    }
}

fn names(r: &[SearchResult]) -> Vec<String> {
    r.iter().map(|x| x.name.clone()).collect()
}

#[test]
fn blank_query_finds_nothing() {
    assert!(search_programs("", &vec![], &vec![]).is_empty());
    assert!(search_programs(" \t\n", &vec![], &vec![]).is_empty());
}

#[test]
fn system_shortcuts_match_and_rank_by_position() {
    let r = search_programs("  Notepad ", &vec![], &vec![]);
    assert_eq!(r.len(), 1);
    assert_eq!(r[0].id, "sys:notepad.exe");
    assert_eq!(r[0].name, "notepad");
    assert_eq!(r[0].path, "notepad.exe");
    assert!(!r[0].is_folder);
    assert_eq!(r[0].icon_data_url, None);

    // "settings" occurs at byte 0 in "settings" and later in the others;
    // equal positions fall back to the lower-case label.
    let s = search_programs("settings", &vec![], &vec![]);
    assert_eq!(
        names(&s),
        vec!["settings", "display settings", "network settings"]
    );
}

#[test]
fn start_menu_entries_filter_by_extension_and_stem() {
    let sm = vec![
        entry("C:\\SM\\Foo Tool.lnk", "Foo Tool", "lnk", "Foo Tool.lnk", false),
        entry("C:\\SM\\foo.txt", "foo", "txt", "foo.txt", false),
        entry("C:\\SM\\Foo Dir", "Foo Dir", "", "Foo Dir", true),
        entry("C:\\SM\\.lnk", "", "lnk", ".lnk", false),
        entry("C:\\SM\\barfoo.exe", "barfoo", "exe", "barfoo.exe", false),
        entry("C:\\SM\\FOO.LNK", "FOO", "LNK", "FOO.LNK", false),
    ];
    let r = search_programs("foo", &sm, &vec![]);
    // directories are only offered from the desktop; only .lnk/.exe files
    // (case-sensitive extension) with a non-empty stem
    assert_eq!(names(&r), vec!["Foo Tool", "barfoo"]);
    assert_eq!(r[0].id, "C:\\SM\\Foo Tool.lnk");
    assert_eq!(r[0].path, "C:\\SM\\Foo Tool.lnk");
}

#[test]
fn same_path_found_twice_is_listed_once() {
    let sm = vec![
        entry("C:\\SM\\App.lnk", "App", "lnk", "App.lnk", false),
        entry("c:\\sm\\app.lnk", "app", "lnk", "app.lnk", false),
    ];
    let r = search_programs("app", &sm, &vec![]);
    // lower-case paths collide: the first one wins ("apps" is a shortcut
    // whose name also contains the query)
    assert_eq!(names(&r), vec!["App", "apps"]);
}

#[test]
fn desktop_folder_is_not_shadowed_by_same_named_exe() {
    let sm = vec![entry("C:\\Startup\\FlatUI.lnk", "FlatUI", "lnk", "FlatUI.lnk", false)];
    let dk = vec![
        entry("C:\\Desk\\flatui", "flatui", "", "flatui", true),
        entry("C:\\Desk\\flatui.exe", "flatui", "exe", "flatui.exe", false),
    ];
    let r = search_programs("flatui", &sm, &dk);
    assert_eq!(r.len(), 5);
    // the folder keeps the bare label and ranks first; the others show
    // their file names; the two autostart shortcuts match later
    assert_eq!(
        names(&r),
        vec![
            "flatui",
            "flatui.exe",
            "FlatUI.lnk",
            "add flatui hush to startup",
            "remove flatui hush from startup"
        ]
    );
    assert!(r[0].is_folder);
    assert_eq!(r[0].path, "C:\\Desk\\flatui");
}

#[test]
fn at_most_twenty_results() {
    let sm: Vec<ProgramEntry> = (0..30)
        .map(|i| {
            let stem = format!("zz{:02}", i);
            entry(&format!("C:\\SM\\{}.exe", stem), &stem, "exe", &format!("{}.exe", stem), false)
        })
        .collect();
    let r = search_programs("zz", &sm, &vec![]);
    assert_eq!(r.len(), MAX_RESULTS);
    assert_eq!(r[0].name, "zz00");
    assert_eq!(r[19].name, "zz19");
}

#[test]
fn ranking_uses_byte_offsets_of_the_match() {
    // "éx" has the match at byte 2 (é is two bytes), "abx" at byte 2 too:
    // equal offsets, so the labels decide ("abx" < "éx").
    let sm = vec![
        entry("C:\\SM\\éx.exe", "éx", "exe", "éx.exe", false),
        entry("C:\\SM\\abx.exe", "abx", "exe", "abx.exe", false),
        entry("C:\\SM\\ax.exe", "ax", "exe", "ax.exe", false),
    ];
    let r = search_programs("x", &sm, &vec![]);
    assert_eq!(
        names(&r),
        vec!["ax", "abx", "éx", "file explorer", "file explorer options"]
    );
}

#[test]
fn query_is_lower_cased_with_unicode_rules() {
    let sm = vec![entry("C:\\SM\\Ärger.exe", "Ärger", "exe", "Ärger.exe", false)];
    let r = search_programs("ÄR", &sm, &vec![]);
    assert_eq!(names(&r), vec!["Ärger"]);
}

#[test]
fn non_ascii_names_match_in_any_case() {
    let sm = vec![entry("C:\\SM\\ÖL ÄRGER.lnk", "ÖL ÄRGER", "lnk", "ÖL ÄRGER.lnk", false)];
    let r = search_programs("öl ärger", &sm, &vec![]);
    assert_eq!(names(&r), vec!["ÖL ÄRGER"]);
    let r = search_programs("ÄRGER", &sm, &vec![]);
    assert_eq!(names(&r), vec!["ÖL ÄRGER"]);
}

#[test]
fn blank_queries_do_not_search() {
    assert!(!is_search_query(""));
    assert!(!is_search_query(" \t\u{3000}\n"));
    assert!(is_search_query(" x "));
    assert!(is_search_query("Ä"));
}
