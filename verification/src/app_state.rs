use vstd::prelude::*;
use crate::peek::{WindowWithExe, clone_opt_string};
use crate::numfmt::{dec_signed, isize_to_dec, parse_isize, parsed_int};
use crate::text::{eq_ignore_ascii_case, str_chars, string_from_chars, str_eq_ignore_ascii_case};

verus! {

/// One icon on the taskbar: a pinned shortcut (`pin:<name>`) or a running
/// top-level window (`run:<hwnd>`).
#[derive(Clone)]
pub struct TaskbarApp {
    pub id: String,
    pub name: String,
    pub icon_data_url: Option<String>,
    pub running: bool,
    pub pinned: bool,
    /// True if this app currently has the foreground (active) window
    pub is_foreground: bool,
}

/// One entry of the desktop grid. `id` is the absolute path.
#[derive(Clone)]
pub struct DesktopItem {
    pub id: String,
    pub name: String,
    pub path: String,
    pub icon_data_url: Option<String>,
    pub is_folder: bool,
}

/// A persistent blacklist entry — matches by exe_path (permanent).
/// Title is optional (for display). `hwnd` is the live window handle
/// (transient; 0 when no window of that exe is open).
#[derive(Clone)]
pub struct BlacklistEntry {
    pub exe_path: String,
    pub title: Option<String>,
    pub hwnd: usize,
}

/// Shared mutable state of the shell.
pub struct AppState {
    pub taskbar_apps: Vec<TaskbarApp>,
    pub desktop_items: Vec<DesktopItem>,
    pub blacklisted: Vec<BlacklistEntry>,
    pub blacklisted_hwnds: Vec<usize>,
    pub app_order: Vec<String>,
}

impl AppState {
    /// Empty state: no apps, no desktop items, nothing blacklisted.
    pub fn new() -> (s: Self)
        ensures
            s.taskbar_apps@.len() == 0,
            s.desktop_items@.len() == 0,
            s.blacklisted@.len() == 0,
            s.blacklisted_hwnds@.len() == 0,
            s.app_order@.len() == 0,
    {
        AppState {
            taskbar_apps: Vec::new(),
            desktop_items: Vec::new(),
            blacklisted: Vec::new(),
            blacklisted_hwnds: Vec::new(),
            app_order: Vec::new(),
        }
    }
}


// ---------------------------------------------------------------------------
// Blacklist bookkeeping
// ---------------------------------------------------------------------------

pub open spec fn opt_view(o: Option<String>) -> Option<Seq<char>> {
    match o {
        Some(s) => Some(s@),
        None => None,
    }
}

/// Plain-value image of an entry: (exe path, title, live hwnd).
pub open spec fn entry_view(e: BlacklistEntry) -> (Seq<char>, Option<Seq<char>>, usize) {
    (e.exe_path@, opt_view(e.title), e.hwnd)
}

pub open spec fn entries_view(es: Seq<BlacklistEntry>) -> Seq<(Seq<char>, Option<Seq<char>>, usize)> {
    es.map_values(|e: BlacklistEntry| entry_view(e))
}

pub open spec fn has_exe(e: BlacklistEntry) -> bool {
    e.exe_path@.len() > 0
}

/// Index of the first listed window whose process image is `exe`.
pub open spec fn first_window_with_exe(ws: Seq<WindowWithExe>, exe: Seq<char>) -> Option<int>
    decreases ws.len(),
{
    if ws.len() == 0 {
        None
    } else {
        match first_window_with_exe(ws.drop_last(), exe) {
            Some(k) => Some(k),
            None => if ws.last().exe_path@ == exe {
                Some(ws.len() - 1)
            } else {
                None
            },
        }
    }
}

/// Index of the first listed window with handle `hwnd`.
pub open spec fn first_window_with_hwnd(ws: Seq<WindowWithExe>, hwnd: usize) -> Option<int>
    decreases ws.len(),
{
    if ws.len() == 0 {
        None
    } else {
        match first_window_with_hwnd(ws.drop_last(), hwnd) {
            Some(k) => Some(k),
            None => if ws.last().hwnd == hwnd {
                Some(ws.len() - 1)
            } else {
                None
            },
        }
    }
}

/// How one kept entry looks after a refresh: matched to the first open
/// window of its exe (live hwnd + current title), or parked with hwnd 0.
pub open spec fn refreshed_entry(e: BlacklistEntry, ws: Seq<WindowWithExe>) -> (Seq<char>, Option<Seq<char>>, usize) {
    match first_window_with_exe(ws, e.exe_path@) {
        Some(k) => (e.exe_path@, Some(ws[k].title@), ws[k].hwnd),
        None => (e.exe_path@, opt_view(e.title), 0),
    }
}

/// Handles of the blacklisted windows that are currently open, in entry
/// order.
pub open spec fn live_hwnds(es: Seq<BlacklistEntry>, ws: Seq<WindowWithExe>) -> Seq<usize>
    decreases es.len(),
{
    if es.len() == 0 {
        Seq::empty()
    } else {
        let prev = live_hwnds(es.drop_last(), ws);
        match first_window_with_exe(ws, es.last().exe_path@) {
            Some(k) => prev.push(ws[k].hwnd),
            None => prev,
        }
    }
}

/// The first match is a real match.
pub proof fn lemma_first_exe_is_match(ws: Seq<WindowWithExe>, exe: Seq<char>)
    ensures
        match first_window_with_exe(ws, exe) {
            Some(k) => 0 <= k < ws.len() && ws[k].exe_path@ == exe && forall|j: int|
                0 <= j < k ==> ws[j].exe_path@ != exe,
            None => forall|j: int| 0 <= j < ws.len() ==> ws[j].exe_path@ != exe,
        },
    decreases ws.len(),
{
    if ws.len() > 0 {
        lemma_first_exe_is_match(ws.drop_last(), exe);
        assert forall|j: int| 0 <= j < ws.len() - 1 implies ws.drop_last()[j] == ws[j] by {}
    }
}

pub proof fn lemma_first_hwnd_is_match(ws: Seq<WindowWithExe>, hwnd: usize)
    ensures
        match first_window_with_hwnd(ws, hwnd) {
            Some(k) => 0 <= k < ws.len() && ws[k].hwnd == hwnd && forall|j: int|
                0 <= j < k ==> ws[j].hwnd != hwnd,
            None => forall|j: int| 0 <= j < ws.len() ==> ws[j].hwnd != hwnd,
        },
    decreases ws.len(),
{
    if ws.len() > 0 {
        lemma_first_hwnd_is_match(ws.drop_last(), hwnd);
        assert forall|j: int| 0 <= j < ws.len() - 1 implies ws.drop_last()[j] == ws[j] by {}
    }
}

fn find_window_with_exe(ws: &[WindowWithExe], exe: &String) -> (r: Option<usize>)
    ensures
        match r {
            Some(k) => first_window_with_exe(ws@, exe@) == Some(k as int) && k < ws@.len(),
            None => first_window_with_exe(ws@, exe@) is None,
        },
{
    let mut i: usize = 0;
    while i < ws.len()
        invariant
            i <= ws@.len(),
            first_window_with_exe(ws@.take(i as int), exe@) is None,
        decreases ws@.len() - i,
    {
        assert(ws@.take(i + 1).drop_last() =~= ws@.take(i as int));
        if ws[i].exe_path == *exe {
            proof { lemma_first_exe_prefix(ws@, exe@, (i + 1) as int); }
            return Some(i);
        }
        i += 1;
    }
    assert(ws@.take(ws@.len() as int) =~= ws@);
    None
}

/// A first match found in a prefix is the first match of the whole list.
proof fn lemma_first_exe_prefix(ws: Seq<WindowWithExe>, exe: Seq<char>, n: int)
    requires
        0 <= n <= ws.len(),
        first_window_with_exe(ws.take(n), exe) is Some,
    ensures
        first_window_with_exe(ws, exe) == first_window_with_exe(ws.take(n), exe),
    decreases ws.len() - n,
{
    if n < ws.len() {
        assert(ws.take(n + 1).drop_last() =~= ws.take(n));
        lemma_first_exe_prefix(ws, exe, n + 1);
    } else {
        assert(ws.take(n) =~= ws);
    }
}

fn find_window_with_hwnd(ws: &[WindowWithExe], hwnd: usize) -> (r: Option<usize>)
    ensures
        match r {
            Some(k) => first_window_with_hwnd(ws@, hwnd) == Some(k as int) && k < ws@.len(),
            None => first_window_with_hwnd(ws@, hwnd) is None,
        },
{
    let mut i: usize = 0;
    while i < ws.len()
        invariant
            i <= ws@.len(),
            first_window_with_hwnd(ws@.take(i as int), hwnd) is None,
        decreases ws@.len() - i,
    {
        assert(ws@.take(i + 1).drop_last() =~= ws@.take(i as int));
        if ws[i].hwnd == hwnd {
            proof { lemma_first_hwnd_prefix(ws@, hwnd, (i + 1) as int); }
            return Some(i);
        }
        i += 1;
    }
    assert(ws@.take(ws@.len() as int) =~= ws@);
    None
}

proof fn lemma_first_hwnd_prefix(ws: Seq<WindowWithExe>, hwnd: usize, n: int)
    requires
        0 <= n <= ws.len(),
        first_window_with_hwnd(ws.take(n), hwnd) is Some,
    ensures
        first_window_with_hwnd(ws, hwnd) == first_window_with_hwnd(ws.take(n), hwnd),
    decreases ws.len() - n,
{
    if n < ws.len() {
        assert(ws.take(n + 1).drop_last() =~= ws.take(n));
        lemma_first_hwnd_prefix(ws, hwnd, n + 1);
    } else {
        assert(ws.take(n) =~= ws);
    }
}

/// Reconcile the persistent blacklist with the windows open right now:
/// entries without an exe path are dropped (phantoms of an older format);
/// every other entry is kept, in order, and is re-attached to the first
/// open window of its exe (its hwnd and title refreshed) or parked with
/// hwnd 0 until the app opens again. Also returns the live handles to hide
/// from the taskbar.
pub fn reconcile_blacklist(entries: &[BlacklistEntry], windows: &[WindowWithExe]) -> (r: (Vec<BlacklistEntry>, Vec<usize>))
    ensures
        entries_view(r.0@) == entries@.filter(|e: BlacklistEntry| has_exe(e)).map_values(
            |e: BlacklistEntry| refreshed_entry(e, windows@),
        ),
        r.1@ == live_hwnds(entries@.filter(|e: BlacklistEntry| has_exe(e)), windows@),
{
    let ghost keep = |e: BlacklistEntry| has_exe(e);
    let ghost refresh = |e: BlacklistEntry| refreshed_entry(e, windows@);
    let mut kept: Vec<BlacklistEntry> = Vec::new();
    let mut hwnds: Vec<usize> = Vec::new();
    let mut i: usize = 0;
    while i < entries.len()
        invariant
            i <= entries@.len(),
            keep == (|e: BlacklistEntry| has_exe(e)),
            refresh == (|e: BlacklistEntry| refreshed_entry(e, windows@)),
            entries_view(kept@) == entries@.take(i as int).filter(keep).map_values(refresh),
            hwnds@ == live_hwnds(entries@.take(i as int).filter(keep), windows@),
        decreases entries@.len() - i,
    {
        let e = &entries[i];
        proof {
            assert(entries@.take(i + 1) == entries@.take(i as int).push(entries@[i as int]));
            entries@.take(i as int).lemma_filter_push(entries@[i as int], keep);
        }
        if !e.exe_path.as_str().is_empty() {
            let ghost fprev = entries@.take(i as int).filter(keep);
            let ghost fnext = fprev.push(entries@[i as int]);
            assert(fnext.drop_last() =~= fprev);
            proof { lemma_first_exe_is_match(windows@, e.exe_path@); }
            let found = find_window_with_exe(windows, &e.exe_path);
            let new_entry = match found {
                Some(k) => BlacklistEntry {
                    exe_path: e.exe_path.clone(),
                    title: Some(windows[k].title.clone()),
                    hwnd: windows[k].hwnd,
                },
                None => BlacklistEntry {
                    exe_path: e.exe_path.clone(),
                    title: clone_opt_string(&e.title),
                    hwnd: 0,
                },
            };
            assert(e == entries@[i as int]);
            assert(refresh(entries@[i as int]) == refreshed_entry(entries@[i as int], windows@));
            match found {
                Some(k) => {
                    assert(first_window_with_exe(windows@, e.exe_path@) == Some(k as int));
                    assert(new_entry.exe_path@ == e.exe_path@);
                    assert(opt_view(new_entry.title) == Some(windows@[k as int].title@));
                    assert(new_entry.hwnd == windows@[k as int].hwnd);
                },
                None => {
                    assert(opt_view(new_entry.title) == opt_view(e.title));
                },
            }
            assert(entry_view(new_entry) == refresh(entries@[i as int]));
            if let Some(k) = found {
                hwnds.push(windows[k].hwnd);
            }
            let ghost before = kept@;
            kept.push(new_entry);
            proof {
                assert(entries_view(kept@) =~= entries_view(before).push(entry_view(new_entry)));
                assert(fnext.map_values(refresh) =~= fprev.map_values(refresh).push(
                    refresh(entries@[i as int]),
                ));
            }
        } else {
            assert(e.exe_path@.len() == 0);
        }
        i += 1;
    }
    assert(entries@.take(entries@.len() as int) =~= entries@);
    (kept, hwnds)
}

/// Blacklist (or un-blacklist) the app owning window `hwnd`, identified by
/// its exe path. Unknown windows change nothing; blacklisting an exe that
/// is already listed changes nothing.
pub fn set_blacklisted(blacklist: &mut Vec<BlacklistEntry>, windows: &[WindowWithExe], hwnd: usize, blacklisted: bool)
    ensures
        match first_window_with_hwnd(windows@, hwnd) {
            None => entries_view(final(blacklist)@) == entries_view(old(blacklist)@),
            Some(k) => if blacklisted {
                if exists|j: int|
                    0 <= j < old(blacklist)@.len() && (#[trigger] old(blacklist)@[j]).exe_path@
                        == windows@[k].exe_path@ {
                    entries_view(final(blacklist)@) == entries_view(old(blacklist)@)
                } else {
                    entries_view(final(blacklist)@) == entries_view(old(blacklist)@).push(
                        (windows@[k].exe_path@, Some(windows@[k].title@), hwnd),
                    )
                }
            } else {
                entries_view(final(blacklist)@) == entries_view(old(blacklist)@).filter(
                    |v: (Seq<char>, Option<Seq<char>>, usize)| v.0 != windows@[k].exe_path@,
                )
            },
        },
{
    let k = match find_window_with_hwnd(windows, hwnd) {
        Some(k) => k,
        None => return,
    };
    proof { lemma_first_hwnd_is_match(windows@, hwnd); }
    let exe = &windows[k].exe_path;
    if blacklisted {
        let mut j: usize = 0;
        while j < blacklist.len()
            invariant
                j <= blacklist@.len(),
                *blacklist == *old(blacklist),
                blacklisted,
                first_window_with_hwnd(windows@, hwnd) == Some(k as int),
                k < windows@.len(),
                exe@ == windows@[k as int].exe_path@,
                forall|t: int| 0 <= t < j ==> (#[trigger] blacklist@[t]).exe_path@ != exe@,
            decreases blacklist@.len() - j,
        {
            if blacklist[j].exe_path == *exe {
                assert(old(blacklist)@[j as int].exe_path@ == windows@[k as int].exe_path@);
                return;
            }
            j += 1;
        }
        let entry = BlacklistEntry {
            exe_path: exe.clone(),
            title: Some(windows[k].title.clone()),
            hwnd,
        };
        let ghost before = blacklist@;
        blacklist.push(entry);
        assert(entries_view(blacklist@) =~= entries_view(before).push(entry_view(entry)));
    } else {
        let ghost pred = |v: (Seq<char>, Option<Seq<char>>, usize)| v.0 != exe@;
        let mut kept: Vec<BlacklistEntry> = Vec::new();
        let mut j: usize = 0;
        while j < blacklist.len()
            invariant
                j <= blacklist@.len(),
                *blacklist == *old(blacklist),
                !blacklisted,
                first_window_with_hwnd(windows@, hwnd) == Some(k as int),
                k < windows@.len(),
                exe@ == windows@[k as int].exe_path@,
                pred == (|v: (Seq<char>, Option<Seq<char>>, usize)| v.0 != exe@),
                entries_view(kept@) == entries_view(blacklist@.take(j as int)).filter(pred),
            decreases blacklist@.len() - j,
        {
            proof {
                assert(blacklist@.take(j + 1) == blacklist@.take(j as int).push(blacklist@[j as int]));
                assert(entries_view(blacklist@.take(j + 1)) =~= entries_view(blacklist@.take(j as int)).push(
                    entry_view(blacklist@[j as int]),
                ));
                entries_view(blacklist@.take(j as int)).lemma_filter_push(
                    entry_view(blacklist@[j as int]),
                    pred,
                );
            }
            if !(blacklist[j].exe_path == *exe) {
                let ghost before = kept@;
                let e = BlacklistEntry {
                    exe_path: blacklist[j].exe_path.clone(),
                    title: clone_opt_string(&blacklist[j].title),
                    hwnd: blacklist[j].hwnd,
                };
                kept.push(e);
                assert(entries_view(kept@) =~= entries_view(before).push(entry_view(e)));
            }
            j += 1;
        }
        assert(blacklist@.take(blacklist@.len() as int) =~= blacklist@);
        *blacklist = kept;
    }
}


// ---------------------------------------------------------------------------
// Taskbar apps
// ---------------------------------------------------------------------------

impl TaskbarApp {
    /// Field-by-field copy.
    pub fn duplicate(&self) -> (r: TaskbarApp)
        ensures
            r == *self,
    {
        TaskbarApp {
            id: self.id.clone(),
            name: self.name.clone(),
            icon_data_url: clone_opt_string(&self.icon_data_url),
            running: self.running,
            pinned: self.pinned,
            is_foreground: self.is_foreground,
        }
    }
}

/// `prefix` followed by the characters of `rest`.
fn prefixed(prefix: &str, rest: &[char]) -> (s: String)
    ensures
        s@ == prefix@ + rest@,
{
    let mut v = str_chars(prefix);
    let ghost p = v@;
    let mut i: usize = 0;
    while i < rest.len()
        invariant
            i <= rest@.len(),
            v@ == p + rest@.take(i as int),
        decreases rest@.len() - i,
    {
        v.push(rest[i]);
        assert(rest@.take(i + 1) == rest@.take(i as int).push(rest@[i as int]));
        assert((p + rest@.take(i as int)).push(rest@[i as int]) =~= p + rest@.take(i + 1));
        i += 1;
    }
    assert(rest@.take(rest@.len() as int) == rest@);
    string_from_chars(v.as_slice())
}

/// Taskbar entry of a pinned shortcut `<name>.lnk`: id `pin:<name>`.
pub fn pinned_app(name: String, icon_data_url: Option<String>) -> (a: TaskbarApp)
    ensures
        a.id@ == "pin:"@ + name@,
        a.name == name,
        a.icon_data_url == icon_data_url,
        !a.running && a.pinned && !a.is_foreground,
{
    let n = str_chars(name.as_str());
    let id = prefixed("pin:", n.as_slice());
    TaskbarApp { id, name, icon_data_url, running: false, pinned: true, is_foreground: false }
}

/// Taskbar entry of a running top-level window: id `run:<hwnd>`.
pub fn running_app(title: String, icon_data_url: Option<String>, hwnd: isize) -> (a: TaskbarApp)
    ensures
        a.id@ == "run:"@ + dec_signed(hwnd as int),
        a.name == title,
        a.icon_data_url == icon_data_url,
        a.running && !a.pinned && !a.is_foreground,
{
    let d = isize_to_dec(hwnd);
    let id = prefixed("run:", d.as_slice());
    TaskbarApp { id, name: title, icon_data_url, running: true, pinned: false, is_foreground: false }
}

pub open spec fn run_prefix() -> Seq<char> {
    seq!['r', 'u', 'n', ':']
}

/// The window handle a `run:<hwnd>` id names, if it is one.
pub open spec fn run_id_hwnd(id: Seq<char>) -> Option<isize> {
    if id.len() >= 4 && id.take(4) == run_prefix() {
        match parsed_int(id.skip(4), true) {
            Some(v) => if isize::MIN <= v <= isize::MAX {
                Some(v as isize)
            } else {
                None
            },
            None => None,
        }
    } else {
        None
    }
}

/// `id.strip_prefix("run:").and_then(|s| s.parse::<isize>().ok())`.
pub fn parse_run_id(id: &str) -> (h: Option<isize>)
    ensures
        h == run_id_hwnd(id@),
{
    let c = str_chars(id);
    if c.len() < 4 || c[0] != 'r' || c[1] != 'u' || c[2] != 'n' || c[3] != ':' {
        proof {
            if c@.len() >= 4 {
                if c@.take(4) == run_prefix() {
                    assert(c@.take(4)[0] == 'r' && c@.take(4)[1] == 'u' && c@.take(4)[2] == 'n'
                        && c@.take(4)[3] == ':');
                }
            }
        }
        return None;
    }
    assert(c@.take(4) =~= run_prefix());
    let mut rest: Vec<char> = Vec::new();
    let mut i: usize = 4;
    while i < c.len()
        invariant
            4 <= i <= c@.len(),
            rest@ == c@.subrange(4, i as int),
        decreases c@.len() - i,
    {
        rest.push(c[i]);
        assert(c@.subrange(4, i + 1) =~= c@.subrange(4, i as int).push(c@[i as int]));
        i += 1;
    }
    assert(rest@ =~= c@.skip(4));
    parse_isize(rest.as_slice())
}

/// What clicking a taskbar icon does.
#[derive(Debug, PartialEq, Eq)]
pub enum AppLaunch {
    /// Start the pinned shortcut `<name>.lnk`.
    Pinned(String),
    /// Bring the window with this handle to the front (restoring it when
    /// minimized).
    Window(isize),
    /// A `run:` id whose handle is not a non-zero number.
    BadHandle,
    /// Neither a `pin:` nor a `run:` id.
    UnknownId,
}

pub open spec fn pin_prefix() -> Seq<char> {
    seq!['p', 'i', 'n', ':']
}

/// The action of a taskbar id (`pin:<name>` or `run:<hwnd>`).
pub open spec fn launch_of(id: Seq<char>) -> (Option<Seq<char>>, Option<isize>, bool) {
    if id.len() >= 4 && id.take(4) == pin_prefix() {
        (Some(id.skip(4)), None, false)
    } else if id.len() >= 4 && id.take(4) == run_prefix() {
        match run_id_hwnd(id) {
            Some(h) => if h != 0 {
                (None, Some(h), false)
            } else {
                (None, None, false)
            },
            None => (None, None, false),
        }
    } else {
        (None, None, true)
    }
}

pub open spec fn launch_view(a: AppLaunch) -> (Option<Seq<char>>, Option<isize>, bool) {
    match a {
        AppLaunch::Pinned(n) => (Some(n@), None, false),
        AppLaunch::Window(h) => (None, Some(h), false),
        AppLaunch::BadHandle => (None, None, false),
        AppLaunch::UnknownId => (None, None, true),
    }
}

/// The action for a taskbar icon id.
pub fn activate_or_launch(app_id: &str) -> (a: AppLaunch)
    ensures
        launch_view(a) == launch_of(app_id@),
{
    let c = str_chars(app_id);
    if c.len() >= 4 && c[0] == 'p' && c[1] == 'i' && c[2] == 'n' && c[3] == ':' {
        assert(c@.take(4) =~= pin_prefix());
        let mut rest: Vec<char> = Vec::new();
        let mut i: usize = 4;
        while i < c.len()
            invariant
                4 <= i <= c@.len(),
                rest@ == c@.subrange(4, i as int),
            decreases c@.len() - i,
        {
            rest.push(c[i]);
            assert(c@.subrange(4, i + 1) =~= c@.subrange(4, i as int).push(c@[i as int]));
            i += 1;
        }
        assert(rest@ =~= c@.skip(4));
        return AppLaunch::Pinned(string_from_chars(rest.as_slice()));
    }
    proof {
        if c@.len() >= 4 && c@.take(4) == pin_prefix() {
            assert(c@.take(4)[0] == 'p' && c@.take(4)[1] == 'i' && c@.take(4)[2] == 'n' && c@.take(4)[3]
                == ':');
        }
    }
    if c.len() >= 4 && c[0] == 'r' && c[1] == 'u' && c[2] == 'n' && c[3] == ':' {
        assert(c@.take(4) =~= run_prefix());
        return match parse_run_id(app_id) {
            Some(h) if h != 0 => AppLaunch::Window(h),
            _ => AppLaunch::BadHandle,
        };
    }
    proof {
        if c@.len() >= 4 && c@.take(4) == run_prefix() {
            assert(c@.take(4)[0] == 'r' && c@.take(4)[1] == 'u' && c@.take(4)[2] == 'n' && c@.take(4)[3]
                == ':');
        }
    }
    AppLaunch::UnknownId
}

/// The file a pinned taskbar entry starts: `<name>.lnk`.
pub fn pinned_shortcut_file(name: &str) -> (r: String)
    ensures
        r@ == name@ + ".lnk"@,
{
    crate::text::concat_str(name, ".lnk")
}

/// `ShellExecuteW` succeeded: a result above 32.
pub fn shell_execute_succeeded(code: usize) -> (ok: bool)
    ensures
        ok == (code > 32),
{
    code > 32
}

/// Another app with the same name (ASCII case-insensitively) is listed.
pub open spec fn name_listed(apps: Seq<TaskbarApp>, name: Seq<char>) -> bool {
    exists|i: int| 0 <= i < apps.len() && eq_ignore_ascii_case(#[trigger] apps[i].name@, name)
}

/// Pinned shortcuts first, then each running window whose title is not
/// already listed (ASCII case-insensitively; later duplicates are dropped
/// too).
pub open spec fn merged_apps(pinned: Seq<TaskbarApp>, running: Seq<TaskbarApp>) -> Seq<TaskbarApp>
    decreases running.len(),
{
    if running.len() == 0 {
        pinned
    } else {
        let m = merged_apps(pinned, running.drop_last());
        if name_listed(m, running.last().name@) {
            m
        } else {
            m.push(running.last())
        }
    }
}

fn name_is_listed(apps: &Vec<TaskbarApp>, name: &String) -> (b: bool)
    ensures
        b == name_listed(apps@, name@),
{
    let mut i: usize = 0;
    while i < apps.len()
        invariant
            i <= apps@.len(),
            forall|j: int| 0 <= j < i ==> !eq_ignore_ascii_case(#[trigger] apps@[j].name@, name@),
        decreases apps@.len() - i,
    {
        if str_eq_ignore_ascii_case(apps[i].name.as_str(), name.as_str()) {
            return true;
        }
        i += 1;
    }
    false
}

/// Append the running windows to the pinned entries, dropping titles that
/// are already present.
pub fn merge_running(apps: &mut Vec<TaskbarApp>, running: Vec<TaskbarApp>)
    ensures
        final(apps)@ == merged_apps(old(apps)@, running@),
{
    let ghost pinned = apps@;
    let mut i: usize = 0;
    while i < running.len()
        invariant
            i <= running@.len(),
            apps@ == merged_apps(pinned, running@.take(i as int)),
        decreases running@.len() - i,
    {
        assert(running@.take(i + 1).drop_last() =~= running@.take(i as int));
        if !name_is_listed(apps, &running[i].name) {
            apps.push(running[i].duplicate());
        }
        i += 1;
    }
    assert(running@.take(running@.len() as int) =~= running@);
}

/// Owner pid of `hwnd` in a lookup table (first match).
pub open spec fn owner_pid(table: Seq<(isize, u32)>, hwnd: isize) -> Option<u32>
    decreases table.len(),
{
    if table.len() == 0 {
        None
    } else if table[0].0 == hwnd {
        Some(table[0].1)
    } else {
        owner_pid(table.skip(1), hwnd)
    }
}

/// An app is the foreground app when it is a running window owned by the
/// foreground process.
pub open spec fn is_foreground_app(a: TaskbarApp, fg_pid: u32, table: Seq<(isize, u32)>) -> bool {
    &&& fg_pid != 0
    &&& a.running
    &&& run_id_hwnd(a.id@) is Some
    &&& owner_pid(table, run_id_hwnd(a.id@)->0) == Some(fg_pid)
}

fn lookup_owner(table: &[(isize, u32)], hwnd: isize) -> (r: Option<u32>)
    ensures
        r == owner_pid(table@, hwnd),
{
    let mut i: usize = 0;
    assert(table@.skip(0) =~= table@);
    while i < table.len()
        invariant
            i <= table@.len(),
            owner_pid(table@, hwnd) == owner_pid(table@.skip(i as int), hwnd),
        decreases table@.len() - i,
    {
        assert(table@.skip(i as int).skip(1) =~= table@.skip(i + 1));
        if table[i].0 == hwnd {
            return Some(table[i].1);
        }
        i += 1;
    }
    None
}

/// Handles of the running entries with a well-formed `run:` id, in order.
pub open spec fn running_handles(apps: Seq<TaskbarApp>) -> Seq<isize>
    decreases apps.len(),
{
    if apps.len() == 0 {
        Seq::empty()
    } else {
        let prev = running_handles(apps.drop_last());
        let a = apps.last();
        if a.running && run_id_hwnd(a.id@) is Some {
            prev.push(run_id_hwnd(a.id@)->0)
        } else {
            prev
        }
    }
}

/// Handles of the running windows whose owner pids are needed to mark
/// the foreground app.
pub fn running_hwnds(apps: &[TaskbarApp]) -> (hs: Vec<isize>)
    ensures
        hs@ == running_handles(apps@),
{
    let mut hs: Vec<isize> = Vec::new();
    let mut i: usize = 0;
    while i < apps.len()
        invariant
            i <= apps@.len(),
            hs@ == running_handles(apps@.take(i as int)),
        decreases apps@.len() - i,
    {
        assert(apps@.take(i + 1).drop_last() =~= apps@.take(i as int));
        if apps[i].running {
            if let Some(h) = parse_run_id(apps[i].id.as_str()) {
                hs.push(h);
            }
        }
        i += 1;
    }
    assert(apps@.take(apps@.len() as int) =~= apps@);
    hs
}

/// Flag the apps whose window belongs to the foreground process
/// (`owners` maps window handles to owner pids). Flags are only ever set.
pub fn mark_foreground(apps: &mut Vec<TaskbarApp>, fg_pid: u32, owners: &[(isize, u32)])
    ensures
        final(apps)@.len() == old(apps)@.len(),
        forall|i: int|
            0 <= i < final(apps)@.len() ==> {
                let a = #[trigger] final(apps)@[i];
                let o = old(apps)@[i];
                &&& a.id == o.id && a.name == o.name && a.icon_data_url == o.icon_data_url
                &&& a.running == o.running && a.pinned == o.pinned
                &&& a.is_foreground == (o.is_foreground || is_foreground_app(o, fg_pid, owners@))
            },
{
    if fg_pid == 0 {
        return;
    }
    let mut i: usize = 0;
    while i < apps.len()
        invariant
            fg_pid != 0,
            i <= apps@.len(),
            apps@.len() == old(apps)@.len(),
            forall|j: int|
                i <= j < apps@.len() ==> #[trigger] apps@[j] == old(apps)@[j],
            forall|j: int|
                0 <= j < i ==> {
                    let a = #[trigger] apps@[j];
                    let o = old(apps)@[j];
                    &&& a.id == o.id && a.name == o.name && a.icon_data_url == o.icon_data_url
                    &&& a.running == o.running && a.pinned == o.pinned
                    &&& a.is_foreground == (o.is_foreground || is_foreground_app(o, fg_pid, owners@))
                },
        decreases apps@.len() - i,
    {
        let mut hit = false;
        if apps[i].running {
            if let Some(h) = parse_run_id(apps[i].id.as_str()) {
                if let Some(pid) = lookup_owner(owners, h) {
                    hit = pid == fg_pid;
                }
            }
        }
        assert(hit == is_foreground_app(old(apps)@[i as int], fg_pid, owners@));
        if hit {
            let mut a = apps[i].duplicate();
            a.is_foreground = true;
            apps.set(i, a);
        }
        i += 1;
    }
}

// ---------------------------------------------------------------------------
// Taskbar ordering
// ---------------------------------------------------------------------------

pub open spec fn strings_view(v: Seq<String>) -> Seq<Seq<char>> {
    v.map_values(|s: String| s@)
}

pub open spec fn app_ids(apps: Seq<TaskbarApp>) -> Seq<Seq<char>> {
    apps.map_values(|a: TaskbarApp| a.id@)
}

/// The user's icon order after a rescan: remembered ids that are still on
/// the taskbar keep their order, new ids follow in scan order (each once).
pub open spec fn merged_order(order: Seq<Seq<char>>, ids: Seq<Seq<char>>) -> Seq<Seq<char>> {
    ids.remove_duplicates(order.filter(|x: Seq<char>| ids.contains(x)))
}

pub open spec fn apps_with_id(apps: Seq<TaskbarApp>, id: Seq<char>) -> Seq<TaskbarApp> {
    apps.filter(|a: TaskbarApp| a.id@ == id)
}

/// Apps laid out in `order`: for each id, the apps with that id in scan
/// order.
pub open spec fn ordered_apps(order: Seq<Seq<char>>, apps: Seq<TaskbarApp>) -> Seq<TaskbarApp> {
    order.flat_map(|id: Seq<char>| apps_with_id(apps, id))
}

fn list_has(v: &Vec<String>, s: &String) -> (b: bool)
    ensures
        b == strings_view(v@).contains(s@),
{
    let mut i: usize = 0;
    while i < v.len()
        invariant
            i <= v@.len(),
            forall|j: int| 0 <= j < i ==> (#[trigger] v@[j])@ != s@,
        decreases v@.len() - i,
    {
        if v[i] == *s {
            assert(strings_view(v@)[i as int] == s@);
            return true;
        }
        i += 1;
    }
    assert forall|j: int| 0 <= j < strings_view(v@).len() implies strings_view(v@)[j] != s@ by {
        assert(strings_view(v@)[j] == v@[j]@);
    }
    false
}

fn app_has_id(apps: &[TaskbarApp], id: &String) -> (b: bool)
    ensures
        b == app_ids(apps@).contains(id@),
{
    let mut i: usize = 0;
    while i < apps.len()
        invariant
            i <= apps@.len(),
            forall|j: int| 0 <= j < i ==> (#[trigger] apps@[j]).id@ != id@,
        decreases apps@.len() - i,
    {
        if apps[i].id == *id {
            assert(app_ids(apps@)[i as int] == id@);
            return true;
        }
        i += 1;
    }
    assert forall|j: int| 0 <= j < app_ids(apps@).len() implies app_ids(apps@)[j] != id@ by {
        assert(app_ids(apps@)[j] == apps@[j].id@);
    }
    false
}

/// Merge the remembered icon order with a fresh scan (see `merged_order`).
pub fn merge_app_order(order: &Vec<String>, apps: &[TaskbarApp]) -> (r: Vec<String>)
    ensures
        strings_view(r@) == merged_order(strings_view(order@), app_ids(apps@)),
{
    let ghost ids = app_ids(apps@);
    let ghost pred = |x: Seq<char>| ids.contains(x);
    let mut kept: Vec<String> = Vec::new();
    let mut i: usize = 0;
    while i < order.len()
        invariant
            i <= order@.len(),
            ids == app_ids(apps@),
            pred == (|x: Seq<char>| ids.contains(x)),
            strings_view(kept@) == strings_view(order@.take(i as int)).filter(pred),
        decreases order@.len() - i,
    {
        proof {
            assert(strings_view(order@.take(i + 1)) =~= strings_view(order@.take(i as int)).push(
                order@[i as int]@,
            ));
            strings_view(order@.take(i as int)).lemma_filter_push(order@[i as int]@, pred);
        }
        if app_has_id(apps, &order[i]) {
            let ghost before = kept@;
            kept.push(order[i].clone());
            assert(strings_view(kept@) =~= strings_view(before).push(order@[i as int]@));
        }
        i += 1;
    }
    assert(order@.take(order@.len() as int) =~= order@);
    let ghost seen = strings_view(kept@);
    let mut j: usize = 0;
    proof {
        assert(ids.take(0) =~= Seq::<Seq<char>>::empty());
        reveal_with_fuel(Seq::remove_duplicates, 1);
    }
    while j < apps.len()
        invariant
            j <= apps@.len(),
            ids == app_ids(apps@),
            strings_view(kept@) == ids.take(j as int).remove_duplicates(seen),
        decreases apps@.len() - j,
    {
        proof {
            assert(ids.take(j + 1) =~= ids.take(j as int) + seq![ids[j as int]]);
            ids.take(j as int).lemma_remove_duplicates_append(ids[j as int], seen);
            ids.take(j as int).lemma_remove_duplicates_properties(seen);
            assert(ids[j as int] == apps@[j as int].id@);
        }
        if !list_has(&kept, &apps[j].id) {
            let ghost before = kept@;
            kept.push(apps[j].id.clone());
            assert(strings_view(kept@) =~= strings_view(before) + seq![apps@[j as int].id@]);
        }
        j += 1;
    }
    assert(ids.take(apps@.len() as int) =~= ids);
    kept
}

fn collect_with_id(apps: &[TaskbarApp], id: &String, out: &mut Vec<TaskbarApp>)
    ensures
        final(out)@ == old(out)@ + apps_with_id(apps@, id@),
{
    let ghost pred = |a: TaskbarApp| a.id@ == id@;
    let ghost start = out@;
    let mut i: usize = 0;
    while i < apps.len()
        invariant
            i <= apps@.len(),
            pred == (|a: TaskbarApp| a.id@ == id@),
            out@ == start + apps@.take(i as int).filter(pred),
        decreases apps@.len() - i,
    {
        proof {
            assert(apps@.take(i + 1) == apps@.take(i as int).push(apps@[i as int]));
            apps@.take(i as int).lemma_filter_push(apps@[i as int], pred);
        }
        if apps[i].id == *id {
            out.push(apps[i].duplicate());
        }
        i += 1;
    }
    assert(apps@.take(apps@.len() as int) =~= apps@);
}

/// Lay the scanned apps out in the merged icon order.
pub fn order_apps(order: &Vec<String>, apps: &[TaskbarApp]) -> (r: Vec<TaskbarApp>)
    ensures
        r@ == ordered_apps(strings_view(order@), apps@),
{
    let ghost f = |id: Seq<char>| apps_with_id(apps@, id);
    let mut out: Vec<TaskbarApp> = Vec::new();
    let mut k: usize = 0;
    while k < order.len()
        invariant
            k <= order@.len(),
            f == (|id: Seq<char>| apps_with_id(apps@, id)),
            out@ == strings_view(order@).take(k as int).flat_map(f),
        decreases order@.len() - k,
    {
        proof {
            strings_view(order@).lemma_flat_map_take_append(f, k as int);
        }
        collect_with_id(apps, &order[k], &mut out);
        k += 1;
    }
    assert(strings_view(order@).take(order@.len() as int) =~= strings_view(order@));
    out
}

// ---------------------------------------------------------------------------
// Laws of the blacklist
// ---------------------------------------------------------------------------

/// No exe path is listed twice.
pub open spec fn exes_distinct(vs: Seq<(Seq<char>, Option<Seq<char>>, usize)>) -> bool {
    forall|i: int, j: int| 0 <= i < j < vs.len() ==> (#[trigger] vs[i]).0 != (#[trigger] vs[j]).0
}

proof fn lemma_filter_all(vs: Seq<(Seq<char>, Option<Seq<char>>, usize)>, p: spec_fn((Seq<char>, Option<Seq<char>>, usize)) -> bool)
    requires
        forall|i: int| 0 <= i < vs.len() ==> p(#[trigger] vs[i]),
    ensures
        vs.filter(p) == vs,
    decreases vs.len(),
{
    reveal(Seq::filter);
    if vs.len() > 0 {
        lemma_filter_all(vs.drop_last(), p);
        assert(p(vs[vs.len() - 1]));
        assert(vs.drop_last().push(vs.last()) =~= vs);
    }
}

proof fn lemma_filter_members(vs: Seq<(Seq<char>, Option<Seq<char>>, usize)>, p: spec_fn((Seq<char>, Option<Seq<char>>, usize)) -> bool)
    ensures
        forall|i: int| 0 <= i < vs.filter(p).len() ==> vs.contains(#[trigger] vs.filter(p)[i]),
        exes_distinct(vs) ==> exes_distinct(vs.filter(p)),
    decreases vs.len(),
{
    reveal(Seq::filter);
    if vs.len() > 0 {
        let d = vs.drop_last();
        lemma_filter_members(d, p);
        let fd = d.filter(p);
        let f = vs.filter(p);
        assert forall|i: int| 0 <= i < f.len() implies vs.contains(#[trigger] f[i]) by {
            if i < fd.len() {
                assert(f[i] == fd[i]);
                assert(d.contains(fd[i]));
                let k = choose|k: int| 0 <= k < d.len() && d[k] == fd[i];
                assert(vs[k] == d[k]);
            } else {
                assert(f[i] == vs.last());
                assert(vs[vs.len() - 1] == vs.last());
            }
        }
        if exes_distinct(vs) {
            assert(exes_distinct(d)) by {
                assert forall|i: int, j: int| 0 <= i < j < d.len() implies (#[trigger] d[i]).0
                    != (#[trigger] d[j]).0 by {
                    assert(d[i] == vs[i] && d[j] == vs[j]);
                }
            }
            if p(vs.last()) {
                assert forall|i: int, j: int| 0 <= i < j < f.len() implies (#[trigger] f[i]).0
                    != (#[trigger] f[j]).0 by {
                    if j == fd.len() {
                        assert(f[i] == fd[i]);
                        assert(d.contains(fd[i]));
                        let k = choose|k: int| 0 <= k < d.len() && d[k] == fd[i];
                        assert(vs[k] == d[k]);
                        assert(vs[k].0 != vs[vs.len() - 1].0);
                    } else {
                        assert(f[i] == fd[i] && f[j] == fd[j]);
                    }
                }
            }
        }
    }
}

/// Hiding an app from the taskbar and then showing it again (through the
/// same window) gives the blacklist back as it was.
pub proof fn law_unblacklist_undoes_blacklist(vs: Seq<(Seq<char>, Option<Seq<char>>, usize)>, e: (Seq<char>, Option<Seq<char>>, usize))
    requires
        forall|i: int| 0 <= i < vs.len() ==> (#[trigger] vs[i]).0 != e.0,
    ensures
        vs.push(e).filter(|v: (Seq<char>, Option<Seq<char>>, usize)| v.0 != e.0) == vs,
{
    reveal(Seq::filter);
    let p = |v: (Seq<char>, Option<Seq<char>>, usize)| v.0 != e.0;
    assert(vs.push(e).drop_last() =~= vs);
    lemma_filter_all(vs, p);
}

/// Blacklisting and un-blacklisting never list one exe twice.
pub proof fn law_blacklist_stays_distinct(vs: Seq<(Seq<char>, Option<Seq<char>>, usize)>, e: (Seq<char>, Option<Seq<char>>, usize))
    requires
        exes_distinct(vs),
    ensures
        (forall|i: int| 0 <= i < vs.len() ==> (#[trigger] vs[i]).0 != e.0) ==> exes_distinct(vs.push(e)),
        exes_distinct(vs.filter(|v: (Seq<char>, Option<Seq<char>>, usize)| v.0 != e.0)),
{
    reveal(Seq::filter);
    let p = |v: (Seq<char>, Option<Seq<char>>, usize)| v.0 != e.0;
    lemma_filter_members(vs, p);
    if forall|i: int| 0 <= i < vs.len() ==> (#[trigger] vs[i]).0 != e.0 {
        let w = vs.push(e);
        assert forall|i: int, j: int| 0 <= i < j < w.len() implies (#[trigger] w[i]).0 != (#[trigger] w[j]).0 by {
            if j == vs.len() {
                assert(w[i] == vs[i]);
            } else {
                assert(w[i] == vs[i] && w[j] == vs[j]);
            }
        }
    }
}

/// Refreshing the blacklist twice against the same open windows gives the
/// same entries as refreshing it once.
pub proof fn law_reconcile_is_stable(once: Seq<BlacklistEntry>, entries: Seq<BlacklistEntry>, windows: Seq<WindowWithExe>)
    requires
        entries_view(once) == entries.filter(|e: BlacklistEntry| has_exe(e)).map_values(
            |e: BlacklistEntry| refreshed_entry(e, windows),
        ),
    ensures
        once.filter(|e: BlacklistEntry| has_exe(e)).map_values(
            |e: BlacklistEntry| refreshed_entry(e, windows),
        ) == entries_view(once),
{
    reveal(Seq::filter);
    let keep = |e: BlacklistEntry| has_exe(e);
    let refresh = |e: BlacklistEntry| refreshed_entry(e, windows);
    let kept = entries.filter(keep);
    kept.filter_lemma(keep);
    assert(entries_view(once).len() == once.len());
    assert forall|i: int| 0 <= i < once.len() implies #[trigger] has_exe(once[i]) && refreshed_entry(
        once[i],
        windows,
    ) == entry_view(once[i]) by {
        assert(entries_view(once)[i] == entry_view(once[i]));
        assert(entries_view(once)[i] == refreshed_entry(kept[i], windows));
        assert(has_exe(kept[i]));
        assert(once[i].exe_path@ == kept[i].exe_path@);
        match first_window_with_exe(windows, kept[i].exe_path@) {
            Some(k) => {},
            None => {},
        }
    }
    lemma_filter_all_entries(once, keep);
    assert(once.filter(keep).map_values(refresh) =~= entries_view(once));
}

proof fn lemma_filter_all_entries(es: Seq<BlacklistEntry>, p: spec_fn(BlacklistEntry) -> bool)
    requires
        forall|i: int| 0 <= i < es.len() ==> p(#[trigger] es[i]),
    ensures
        es.filter(p) == es,
    decreases es.len(),
{
    reveal(Seq::filter);
    if es.len() > 0 {
        lemma_filter_all_entries(es.drop_last(), p);
        assert(p(es[es.len() - 1]));
        assert(es.drop_last().push(es.last()) =~= es);
    }
}

proof fn lemma_remove_duplicates_distinct(s: Seq<Seq<char>>, seen: Seq<Seq<char>>)
    requires
        seen.no_duplicates(),
    ensures
        s.remove_duplicates(seen).no_duplicates(),
    decreases s.len(),
{
    if s.len() > 0 {
        if seen.contains(s[0]) {
            lemma_remove_duplicates_distinct(s.skip(1), seen);
        } else {
            let seen2 = seen + seq![s[0]];
            assert(seen2.no_duplicates()) by {
                assert forall|i: int, j: int| 0 <= i < seen2.len() && 0 <= j < seen2.len() && i != j
                    implies seen2[i] != seen2[j] by {
                    if i == seen.len() as int {
                        assert(seen2[j] == seen[j]);
                    } else if j == seen.len() as int {
                        assert(seen2[i] == seen[i]);
                    } else {
                        assert(seen2[i] == seen[i] && seen2[j] == seen[j]);
                    }
                }
            }
            lemma_remove_duplicates_distinct(s.skip(1), seen2);
        }
    }
}

proof fn lemma_filter_ids_distinct(s: Seq<Seq<char>>, p: spec_fn(Seq<char>) -> bool)
    requires
        s.no_duplicates(),
    ensures
        s.filter(p).no_duplicates(),
        forall|x: Seq<char>| s.filter(p).contains(x) ==> s.contains(x) && p(x),
    decreases s.len(),
{
    reveal(Seq::filter);
    if s.len() > 0 {
        let d = s.drop_last();
        assert(d.no_duplicates()) by {
            assert forall|i: int, j: int| 0 <= i < d.len() && 0 <= j < d.len() && i != j implies d[i]
                != d[j] by {
                assert(d[i] == s[i] && d[j] == s[j]);
            }
        }
        lemma_filter_ids_distinct(d, p);
        let fd = d.filter(p);
        let f = s.filter(p);
        assert forall|x: Seq<char>| f.contains(x) implies s.contains(x) && p(x) by {
            let k = choose|k: int| 0 <= k < f.len() && f[k] == x;
            if k < fd.len() {
                assert(f[k] == fd[k]);
                assert(fd.contains(x));
                assert(d.contains(x) && p(x));
                let m = choose|m: int| 0 <= m < d.len() && d[m] == x;
                assert(s[m] == d[m]);
            } else {
                assert(p(s.last()));
                assert(x == s.last());
                assert(s[s.len() - 1] == x);
            }
        }
        if p(s.last()) {
            assert forall|i: int, j: int| 0 <= i < f.len() && 0 <= j < f.len() && i != j implies f[i]
                != f[j] by {
                if i == fd.len() as int || j == fd.len() as int {
                    let other = if i == fd.len() as int { j } else { i };
                    assert(f[other] == fd[other]);
                    assert(fd.contains(fd[other]));
                    assert(d.contains(fd[other]));
                    let m = choose|m: int| 0 <= m < d.len() && d[m] == fd[other];
                    assert(s[m] == d[m]);
                    assert(s[m] != s[s.len() - 1]);
                } else {
                    assert(f[i] == fd[i] && f[j] == fd[j]);
                }
            }
        }
    }
}

/// After a rescan the icon order lists every app on the taskbar, only
/// those, and each once (as long as the remembered order did).
pub proof fn law_icon_order_complete(order: Seq<Seq<char>>, ids: Seq<Seq<char>>)
    ensures
        forall|x: Seq<char>| #[trigger] merged_order(order, ids).contains(x) <==> ids.contains(x),
        order.no_duplicates() ==> merged_order(order, ids).no_duplicates(),
{
    let p = |x: Seq<char>| ids.contains(x);
    let found = order.filter(p);
    ids.lemma_remove_duplicates_properties(found);
    if order.no_duplicates() {
        lemma_filter_ids_distinct(order, p);
        lemma_remove_duplicates_distinct(ids, found);
    }
    assert forall|x: Seq<char>| #[trigger] merged_order(order, ids).contains(x) <==> ids.contains(x) by {
        order.filter_lemma(p);
        if found.contains(x) {
            let k = choose|k: int| 0 <= k < found.len() && found[k] == x;
            assert(p(found[k]));
        }
        if ids.contains(x) {
            let k = choose|k: int| 0 <= k < ids.len() && ids[k] == x;
            assert((ids + found)[k] == x);
        }
        if (ids + found).contains(x) {
            let k = choose|k: int| 0 <= k < (ids + found).len() && (ids + found)[k] == x;
            if k >= ids.len() {
                assert(found[k - ids.len()] == x);
                assert(found.contains(x));
            }
        }
    }
}

/// Merging keeps the pinned entries first and adds only running windows;
/// every running window's title ends up listed, and no added entry shares
/// its name (ASCII case-insensitively) with any entry before it.
pub proof fn law_merged_names_distinct(p: Seq<TaskbarApp>, r: Seq<TaskbarApp>)
    ensures
        ({
            let m = merged_apps(p, r);
            &&& m.len() >= p.len()
            &&& m.take(p.len() as int) == p
            &&& forall|j: int| p.len() <= j < m.len() ==> exists|k: int| 0 <= k < r.len() && #[trigger] m[j] == r[k]
            &&& forall|k: int| 0 <= k < r.len() ==> name_listed(m, #[trigger] r[k].name@)
            &&& forall|i: int, j: int|
                0 <= i < j < m.len() && j >= p.len() ==> !eq_ignore_ascii_case(
                    #[trigger] m[i].name@,
                    #[trigger] m[j].name@,
                )
        }),
    decreases r.len(),
{
    let m = merged_apps(p, r);
    if r.len() == 0 {
        assert(m.take(p.len() as int) =~= p);
    } else {
        let d = r.drop_last();
        let x = r.last();
        let m0 = merged_apps(p, d);
        law_merged_names_distinct(p, d);
        assert forall|j: int| p.len() <= j < m0.len() implies exists|k: int| 0 <= k < r.len() && #[trigger] m0[j] == r[k] by {
            let k = choose|k: int| 0 <= k < d.len() && #[trigger] m0[j] == d[k];
            assert(r[k] == d[k]);
        }
        assert forall|k: int| 0 <= k < d.len() implies name_listed(m, #[trigger] r[k].name@) by {
            assert(r[k] == d[k]);
            assert(name_listed(m0, d[k].name@));
            let i = choose|i: int| 0 <= i < m0.len() && eq_ignore_ascii_case(#[trigger] m0[i].name@, d[k].name@);
            if !name_listed(m0, x.name@) {
                assert(m[i] == m0[i]);
            }
        }
        if name_listed(m0, x.name@) {
            assert(m == m0);
        } else {
            assert(m == m0.push(x));
            assert(m.take(p.len() as int) =~= m0.take(p.len() as int));
            assert(m[m0.len() as int] == r[r.len() - 1]);
            assert forall|i: int| 0 <= i < m.len() implies (#[trigger] m[i]) == if i < m0.len() { m0[i] } else { x } by {}
            assert(eq_ignore_ascii_case(m[m0.len() as int].name@, x.name@));
            assert(name_listed(m, x.name@));
            assert forall|i: int, j: int|
                0 <= i < j < m.len() && j >= p.len() implies !eq_ignore_ascii_case(
                    #[trigger] m[i].name@,
                    #[trigger] m[j].name@,
                ) by {
                if j < m0.len() {
                    assert(m[i] == m0[i] && m[j] == m0[j]);
                } else {
                    assert(m[i] == m0[i]);
                    if eq_ignore_ascii_case(m0[i].name@, x.name@) {
                        assert(name_listed(m0, x.name@));
                    }
                }
            }
            assert forall|j: int| p.len() <= j < m.len() implies exists|k: int| 0 <= k < r.len() && #[trigger] m[j] == r[k] by {
                if j < m0.len() {
                    assert(m[j] == m0[j]);
                } else {
                    assert(m[j] == r[r.len() - 1]);
                }
            }
        }
    }
}

} // verus!
