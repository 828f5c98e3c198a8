//! Decisions the shell takes about other windows and processes: which
//! windows are listed, minimized or count as full screen, what the shell's
//! own window styles become, which clicks close the taskbar strip, and
//! which processes are shut down on sight.
use vstd::prelude::*;
use crate::text::{
    chars_contains, chars_ends_with, contains_sub, is_suffix, str_chars, str_eq_ignore_ascii_case,
    eq_ignore_ascii_case, to_lowercase, trim_whitespace, trim_ws, unicode_lowercase,
};

verus! {

broadcast use vstd::string::group_string_axioms;

// ---------------------------------------------------------------------------
// Window style bits (winuser.h)
// ---------------------------------------------------------------------------

pub const WS_EX_TOPMOST: u32 = 0x0000_0008;
pub const WS_EX_TRANSPARENT: u32 = 0x0000_0020;
pub const WS_EX_TOOLWINDOW: u32 = 0x0000_0080;
pub const WS_EX_APPWINDOW: u32 = 0x0004_0000;
pub const WS_EX_LAYERED: u32 = 0x0008_0000;
pub const WS_EX_NOACTIVATE: u32 = 0x0800_0000;
pub const WS_OVERLAPPEDWINDOW: u32 = 0x00CF_0000;
pub const WS_VISIBLE: u32 = 0x1000_0000;
pub const WS_POPUP: u32 = 0x8000_0000;

/// Extended style of the shell's own overlay windows: never activated, no
/// taskbar button, always on top.
pub fn no_activate_ex_style(ex: isize) -> (r: isize)
    ensures
        r == ex | (WS_EX_NOACTIVATE as isize) | (WS_EX_TOOLWINDOW as isize) | (
        WS_EX_TOPMOST as isize),
{
    ex | (WS_EX_NOACTIVATE as isize) | (WS_EX_TOOLWINDOW as isize) | (WS_EX_TOPMOST as isize)
}

/// Style of the shell's own overlay windows: the overlapped-window bits
/// (caption, system menu, sizing frame, buttons) give way to a popup, and
/// the window stays visible only if it was.
pub fn popup_style(style: isize, visible: bool) -> (r: isize)
    ensures
        r == ((style & !(WS_OVERLAPPEDWINDOW as isize)) | (WS_POPUP as isize)) | (if visible {
            WS_VISIBLE as isize
        } else {
            0isize
        }),
{
    let mut s = (style & !(WS_OVERLAPPEDWINDOW as isize)) | (WS_POPUP as isize);
    if visible {
        s = s | (WS_VISIBLE as isize);
    }
    proof {
        if !visible {
            assert(s | 0isize == s) by (bit_vector);
        }
    }
    s
}

/// Extended style of the table picker when shown (clickable) or hidden
/// (click-through); it is never a layered window.
pub fn picker_ex_style(ex: isize, visible: bool) -> (r: isize)
    ensures
        r == if visible {
            ex & !(WS_EX_LAYERED as isize) & !(WS_EX_TRANSPARENT as isize)
        } else {
            (ex & !(WS_EX_LAYERED as isize)) | (WS_EX_TRANSPARENT as isize)
        },
{
    let cleared = ex & !(WS_EX_LAYERED as isize);
    if visible {
        cleared & !(WS_EX_TRANSPARENT as isize)
    } else {
        cleared | (WS_EX_TRANSPARENT as isize)
    }
}

/// The bits the style helpers set and clear are what they promise: an
/// overlay is a popup without any overlapped-window bit, and the picker is
/// never layered and is click-through exactly when hidden.
pub proof fn law_style_bits(style: isize, ex: isize)
    ensures
        ({
            let p = ((style & !(WS_OVERLAPPEDWINDOW as isize)) | (WS_POPUP as isize));
            &&& p & (WS_OVERLAPPEDWINDOW as isize) == 0
            &&& p & (WS_POPUP as isize) == (WS_POPUP as isize)
        }),
        (ex & !(WS_EX_LAYERED as isize) & !(WS_EX_TRANSPARENT as isize)) & (WS_EX_TRANSPARENT as isize)
            == 0,
        (ex & !(WS_EX_LAYERED as isize) & !(WS_EX_TRANSPARENT as isize)) & (WS_EX_LAYERED as isize)
            == 0,
        ((ex & !(WS_EX_LAYERED as isize)) | (WS_EX_TRANSPARENT as isize)) & (
        WS_EX_TRANSPARENT as isize) == (WS_EX_TRANSPARENT as isize),
        ((ex & !(WS_EX_LAYERED as isize)) | (WS_EX_TRANSPARENT as isize)) & (WS_EX_LAYERED as isize)
            == 0,
        (ex | (WS_EX_NOACTIVATE as isize) | (WS_EX_TOOLWINDOW as isize) | (WS_EX_TOPMOST as isize))
            & (WS_EX_NOACTIVATE as isize) == (WS_EX_NOACTIVATE as isize),
{
    let ovl = WS_OVERLAPPEDWINDOW as isize;
    let pop = WS_POPUP as isize;
    let lay = WS_EX_LAYERED as isize;
    let tra = WS_EX_TRANSPARENT as isize;
    let noa = WS_EX_NOACTIVATE as isize;
    let tool = WS_EX_TOOLWINDOW as isize;
    let top = WS_EX_TOPMOST as isize;
    assert(ovl == 0x00CF_0000isize);
    assert(lay == 0x0008_0000isize);
    assert(tra == 0x20isize);
    assert(noa == 0x0800_0000isize);
    assert(tool == 0x80isize);
    assert(top == 0x8isize);
    assert((0x8000_0000u32 as isize) & 0x00CF_0000isize == 0) by (bit_vector);
    assert(((style & !ovl) | pop) & pop == pop) by (bit_vector);
    assert(((style & !ovl) | pop) & ovl == 0) by (bit_vector)
        requires
            ovl == 0x00CF_0000isize,
            pop & ovl == 0,
    ;
    assert((ex & !lay & !tra) & tra == 0) by (bit_vector);
    assert((ex & !lay & !tra) & lay == 0) by (bit_vector);
    assert(((ex & !lay) | tra) & tra == tra) by (bit_vector);
    assert(((ex & !lay) | tra) & lay == 0) by (bit_vector)
        requires
            lay == 0x0008_0000isize,
            tra == 0x20isize,
    ;
    assert((ex | noa | tool | top) & noa == noa) by (bit_vector);
}

// ---------------------------------------------------------------------------
// Rectangles and clicks
// ---------------------------------------------------------------------------

/// A screen rectangle in physical pixels (`RECT`).
#[derive(Clone, Copy, Debug, PartialEq, Eq, Structural)]
pub struct Rect {
    pub left: i32,
    pub top: i32,
    pub right: i32,
    pub bottom: i32,
}

/// The point lies in the rectangle (right and bottom edges excluded).
pub open spec fn inside(r: Rect, x: i32, y: i32) -> bool {
    r.left <= x && x < r.right && r.top <= y && y < r.bottom
}

pub fn contains_point(r: &Rect, x: i32, y: i32) -> (b: bool)
    ensures
        b == inside(*r, x, y),
{
    x >= r.left && x < r.right && y >= r.top && y < r.bottom
}

pub const HC_ACTION: i32 = 0;
pub const WM_LBUTTONDOWN: u32 = 0x0201;
pub const WM_RBUTTONDOWN: u32 = 0x0204;
pub const WM_MBUTTONDOWN: u32 = 0x0207;
pub const LLMHF_INJECTED: u32 = 0x0000_0001;

/// A real (not injected) left, right or middle button press outside the
/// open taskbar strip closes the strip; the click itself goes through.
pub open spec fn closes_strip(
    n_code: i32,
    msg: u32,
    flags: u32,
    strip_hwnd: isize,
    strip_rect: Option<Rect>,
    x: i32,
    y: i32,
) -> bool {
    &&& n_code == HC_ACTION
    &&& flags & LLMHF_INJECTED == 0
    &&& (msg == WM_LBUTTONDOWN || msg == WM_RBUTTONDOWN || msg == WM_MBUTTONDOWN)
    &&& strip_hwnd != 0
    &&& strip_rect is Some
    &&& !inside(strip_rect->0, x, y)
}

/// Whether a low-level mouse event closes the taskbar strip.
pub fn click_closes_strip(
    n_code: i32,
    msg: u32,
    flags: u32,
    strip_hwnd: isize,
    strip_rect: Option<Rect>,
    x: i32,
    y: i32,
) -> (b: bool)
    ensures
        b == closes_strip(n_code, msg, flags, strip_hwnd, strip_rect, x, y),
{
    if n_code != HC_ACTION {
        return false;
    }
    let injected = flags & LLMHF_INJECTED != 0;
    let is_click = msg == WM_LBUTTONDOWN || msg == WM_RBUTTONDOWN || msg == WM_MBUTTONDOWN;
    if injected || !is_click || strip_hwnd == 0 {
        return false;
    }
    match strip_rect {
        Some(r) => !contains_point(&r, x, y),
        None => false,
    }
}

// ---------------------------------------------------------------------------
// Full-screen foreground window
// ---------------------------------------------------------------------------

/// The window covers the monitor, give or take 2 px on each side.
pub open spec fn covers(w: Rect, m: Rect) -> bool {
    w.left <= m.left + 2 && w.right >= m.right - 2 && w.top <= m.top + 2 && w.bottom >= m.bottom - 2
}

/// Shell processes whose windows never count as full screen.
pub open spec fn is_shell_exe_path(path: Seq<char>) -> bool {
    let l = unicode_lowercase(path);
    ||| is_suffix("explorer.exe"@, l)
    ||| is_suffix("textinputhost.exe"@, l)
    ||| is_suffix("searchhost.exe"@, l)
    ||| is_suffix("startmenuexperiencehost.exe"@, l)
    ||| is_suffix("shellexperiencehost.exe"@, l)
    ||| is_suffix("applicationframehost.exe"@, l)
}

fn ends_with_str(hay: &Vec<char>, suffix: &str) -> (b: bool)
    ensures
        b == is_suffix(suffix@, hay@),
{
    let s = str_chars(suffix);
    chars_ends_with(hay.as_slice(), s.as_slice())
}

/// Whether an executable path belongs to the Windows shell.
pub fn is_shell_exe(path: &str) -> (b: bool)
    ensures
        b == is_shell_exe_path(path@),
{
    let lower = to_lowercase(path);
    let l = str_chars(lower.as_str());
    ends_with_str(&l, "explorer.exe") || ends_with_str(&l, "textinputhost.exe") || ends_with_str(
        &l,
        "searchhost.exe",
    ) || ends_with_str(&l, "startmenuexperiencehost.exe") || ends_with_str(
        &l,
        "shellexperiencehost.exe",
    ) || ends_with_str(&l, "applicationframehost.exe")
}

/// What the system reports about the foreground window.
pub struct ForegroundInfo {
    pub iconic: bool,
    /// Owning process (0 when unknown).
    pub pid: u32,
    /// This process.
    pub own_pid: u32,
    pub exe_path: Option<String>,
    pub window_rect: Option<Rect>,
    pub monitor_rect: Option<Rect>,
}

pub open spec fn opt_chars(o: Option<String>) -> Option<Seq<char>> {
    match o {
        Some(s) => Some(s@),
        None => None,
    }
}

/// A foreground window is full screen when it is not minimized, belongs
/// to a known process other than this one and the shell, and covers its
/// monitor.
pub open spec fn fullscreen_verdict(f: ForegroundInfo) -> bool {
    &&& !f.iconic
    &&& f.pid != 0
    &&& f.pid != f.own_pid
    &&& !(f.exe_path is Some && is_shell_exe_path(f.exe_path->0@))
    &&& f.window_rect is Some
    &&& f.monitor_rect is Some
    &&& covers(f.window_rect->0, f.monitor_rect->0)
}

pub open spec fn monitor_in_range(m: Rect) -> bool {
    m.left <= i32::MAX - 2 && m.top <= i32::MAX - 2 && m.right >= i32::MIN + 2 && m.bottom >= i32::MIN
        + 2
}

/// Whether the foreground window is full screen.
pub fn is_foreground_fullscreen(f: &ForegroundInfo) -> (b: bool)
    requires
        f.monitor_rect is Some ==> monitor_in_range(f.monitor_rect->0),
    ensures
        b == fullscreen_verdict(*f),
{
    if f.iconic || f.pid == 0 || f.pid == f.own_pid {
        return false;
    }
    if let Some(p) = &f.exe_path {
        if is_shell_exe(p.as_str()) {
            return false;
        }
    }
    match (f.window_rect, f.monitor_rect) {
        (Some(w), Some(m)) => w.left <= m.left + 2 && w.right >= m.right - 2 && w.top <= m.top + 2
            && w.bottom >= m.bottom - 2,
        _ => false,
    }
}

// ---------------------------------------------------------------------------
// Which windows are listed
// ---------------------------------------------------------------------------

pub open spec fn listed_in(hwnds: Seq<usize>, hwnd: usize) -> bool {
    exists|i: int| 0 <= i < hwnds.len() && hwnds[i] == hwnd
}

/// Whether `hwnd` is in the list.
pub fn hwnd_listed(hwnds: &[usize], hwnd: usize) -> (b: bool)
    ensures
        b == listed_in(hwnds@, hwnd),
{
    let mut i: usize = 0;
    while i < hwnds.len()
        invariant
            i <= hwnds@.len(),
            forall|j: int| 0 <= j < i ==> hwnds@[j] != hwnd,
        decreases hwnds@.len() - i,
    {
        if hwnds[i] == hwnd {
            return true;
        }
        i += 1;
    }
    false
}

/// A title that is there and is not only white space.
pub open spec fn has_title(title: Seq<char>) -> bool {
    title.len() > 0 && trim_ws(title).len() > 0
}

fn title_present(title: &str) -> (b: bool)
    ensures
        b == has_title(title@),
{
    if title.is_empty() {
        return false;
    }
    let t = trim_whitespace(title);
    !t.as_str().is_empty()
}

/// A window gets a taskbar button when it is visible, not hidden by the
/// user, not a plain tool window (an app-window bit overrides the tool
/// bit), and has a title.
pub open spec fn taskbar_lists(visible: bool, blacklisted: bool, ex_style: isize, title: Seq<char>) -> bool {
    &&& visible
    &&& !blacklisted
    &&& !(ex_style & (WS_EX_TOOLWINDOW as isize) != 0 && ex_style & (WS_EX_APPWINDOW as isize) == 0)
    &&& has_title(title)
}

/// Whether a top-level window gets a taskbar button.
pub fn lists_on_taskbar(visible: bool, hwnd: usize, blacklist: &[usize], ex_style: isize, title: &str) -> (b: bool)
    ensures
        b == taskbar_lists(visible, listed_in(blacklist@, hwnd), ex_style, title@),
{
    if !visible || hwnd_listed(blacklist, hwnd) {
        return false;
    }
    let has_tool = ex_style & (WS_EX_TOOLWINDOW as isize) != 0;
    let has_app = ex_style & (WS_EX_APPWINDOW as isize) != 0;
    if has_tool && !has_app {
        return false;
    }
    title_present(title)
}

/// A window appears in the window switcher when it is visible, not a tool
/// window, and has a title.
pub open spec fn switcher_lists(visible: bool, ex_style: isize, title: Seq<char>) -> bool {
    visible && ex_style & (WS_EX_TOOLWINDOW as isize) == 0 && has_title(title)
}

/// Whether a top-level window appears in the window switcher.
pub fn lists_in_switcher(visible: bool, ex_style: isize, title: &str) -> (b: bool)
    ensures
        b == switcher_lists(visible, ex_style, title@),
{
    visible && ex_style & (WS_EX_TOOLWINDOW as isize) == 0 && title_present(title)
}

/// "Minimize all" leaves alone invisible windows, tool windows, windows
/// already minimized, this process's windows and the desktop ("Program
/// Manager").
pub open spec fn minimizes(
    visible: bool,
    ex_style: isize,
    iconic: bool,
    pid: u32,
    own_pid: u32,
    title: Seq<char>,
) -> bool {
    &&& visible
    &&& ex_style & (WS_EX_TOOLWINDOW as isize) == 0
    &&& !iconic
    &&& pid != own_pid
    &&& !(title.len() > 0 && (contains_sub(unicode_lowercase(title), "program manager"@)
        || unicode_lowercase(title).len() == 0))
}

/// Whether "minimize all" minimizes a top-level window.
pub fn should_minimize(visible: bool, ex_style: isize, iconic: bool, pid: u32, own_pid: u32, title: &str) -> (b: bool)
    ensures
        b == minimizes(visible, ex_style, iconic, pid, own_pid, title@),
{
    if !visible || ex_style & (WS_EX_TOOLWINDOW as isize) != 0 || iconic || pid == own_pid {
        return false;
    }
    if !title.is_empty() {
        let lower = to_lowercase(title);
        let l = str_chars(lower.as_str());
        let pm = str_chars("program manager");
        if chars_contains(l.as_slice(), pm.as_slice()) || lower.as_str().is_empty() {
            return false;
        }
    }
    true
}

// ---------------------------------------------------------------------------
// Process names
// ---------------------------------------------------------------------------

fn nul_index(buf: &[u16]) -> (r: Option<usize>)
    ensures
        match r {
            Some(i) => i < buf@.len() && buf@[i as int] == 0 && (forall|j: int| 0 <= j < i ==> buf@[j] != 0),
            None => forall|j: int| 0 <= j < buf@.len() ==> buf@[j] != 0,
        },
{
    let mut i: usize = 0;
    while i < buf.len()
        invariant
            i <= buf@.len(),
            forall|j: int| 0 <= j < i ==> buf@[j] != 0,
        decreases buf@.len() - i,
    {
        if buf[i] == 0 {
            return Some(i);
        }
        i += 1;
    }
    None
}

fn units_prefix(buf: &[u16], n: usize) -> (r: Vec<u16>)
    requires
        n <= buf@.len(),
    ensures
        r@ == buf@.take(n as int),
{
    let mut out: Vec<u16> = Vec::new();
    let mut i: usize = 0;
    while i < n
        invariant
            i <= n,
            n <= buf@.len(),
            out@ == buf@.take(i as int),
        decreases n - i,
    {
        out.push(buf[i]);
        assert(buf@.take(i + 1) == buf@.take(i as int).push(buf@[i as int]));
        i += 1;
    }
    out
}

/// The executable name in a process snapshot entry: the units before the
/// first NUL, or the whole buffer when there is none.
pub fn exe_file_units(buf: &[u16]) -> (r: Vec<u16>)
    ensures
        (forall|j: int| 0 <= j < buf@.len() ==> buf@[j] != 0) ==> r@ == buf@,
        forall|i: int|
            0 <= i < buf@.len() && buf@[i] == 0 && (forall|j: int| 0 <= j < i ==> buf@[j] != 0)
                ==> r@ == buf@.take(i),
{
    match nul_index(buf) {
        Some(i) => units_prefix(buf, i),
        None => {
            let r = units_prefix(buf, buf.len());
            assert(buf@.take(buf@.len() as int) == buf@);
            r
        },
    }
}

/// The name the start-menu watcher compares: the units before the first
/// NUL, or nothing when there is none.
pub fn watched_name_units(buf: &[u16]) -> (r: Vec<u16>)
    ensures
        (forall|j: int| 0 <= j < buf@.len() ==> buf@[j] != 0) ==> r@.len() == 0,
        forall|i: int|
            0 <= i < buf@.len() && buf@[i] == 0 && (forall|j: int| 0 <= j < i ==> buf@[j] != 0)
                ==> r@ == buf@.take(i),
{
    match nul_index(buf) {
        Some(i) => units_prefix(buf, i),
        None => Vec::new(),
    }
}

/// Shell surfaces the Win key can bring up, shut down on sight: the Start
/// menu, the search flyout and the shell flyout host.
pub open spec fn is_watched_process(name: Seq<char>) -> bool {
    ||| eq_ignore_ascii_case(name, "StartMenuExperienceHost.exe"@)
    ||| eq_ignore_ascii_case(name, "SearchHost.exe"@)
    ||| eq_ignore_ascii_case(name, "ShellExperienceHost.exe"@)
}

/// Whether a process with this executable name is shut down on sight.
pub fn is_kill_target(name: &str) -> (b: bool)
    ensures
        b == is_watched_process(name@),
{
    str_eq_ignore_ascii_case(name, "StartMenuExperienceHost.exe") || str_eq_ignore_ascii_case(
        name,
        "SearchHost.exe",
    ) || str_eq_ignore_ascii_case(name, "ShellExperienceHost.exe")
}

/// The executable path shown for a process: its full image path when the
/// system gives one, else the name under `C:\Windows\System32\`.
pub fn process_exe_path(full_path: Option<String>, exe_name: &str) -> (r: String)
    ensures
        r@ == match full_path {
            Some(p) => p@,
            None => "C:\\Windows\\System32\\"@ + exe_name@,
        },
{
    match full_path {
        Some(p) => p,
        None => crate::text::concat_str("C:\\Windows\\System32\\", exe_name),
    }
}

// ---------------------------------------------------------------------------
// Caption suppression
// ---------------------------------------------------------------------------

pub const WM_NCHITTEST: u32 = 0x0084;
pub const WM_NCPAINT: u32 = 0x0085;
pub const WM_NCACTIVATE: u32 = 0x0086;
pub const HTCLIENT: isize = 1;

/// How the shell's overlay windows answer non-client messages so that no
/// caption is ever drawn: activation redraws are refused, non-client
/// painting skipped, and every hit is in the client area; other messages
/// (`None`) go to the default handler.
pub fn caption_message_result(msg: u32) -> (r: Option<isize>)
    ensures
        r == if msg == WM_NCACTIVATE {
            Some(1isize)
        } else if msg == WM_NCPAINT {
            Some(0isize)
        } else if msg == WM_NCHITTEST {
            Some(HTCLIENT)
        } else {
            None::<isize>
        },
{
    if msg == WM_NCACTIVATE {
        Some(1)
    } else if msg == WM_NCPAINT {
        Some(0)
    } else if msg == WM_NCHITTEST {
        Some(HTCLIENT)
    } else {
        None
    }
}

// ---------------------------------------------------------------------------
// Pop-out restore animation
// ---------------------------------------------------------------------------

/// Physical-screen rect of the taskbar button a window pops out of.
#[derive(Clone, Copy, Debug, PartialEq, Eq, Structural)]
pub struct OriginRect {
    pub x: i32,
    pub y: i32,
    pub w: i32,
    pub h: i32,
}

/// The windows whose restore animation is running.
pub struct AnimationGuard {
    active: Vec<isize>,
}

impl View for AnimationGuard {
    type V = Set<isize>;

    closed spec fn view(&self) -> Set<isize> {
        self.active@.to_set()
    }
}

impl AnimationGuard {
    pub fn new() -> (g: AnimationGuard)
        ensures
            g@ == Set::<isize>::empty(),
    {
        let g = AnimationGuard { active: Vec::new() };
        proof {
            assert(g.active@ =~= Seq::<isize>::empty());
            vstd::seq_lib::seq_to_set_is_finite(g.active@);
            assert(g@ =~= Set::<isize>::empty());
        }
        g
    }

    fn position(&self, hwnd: isize) -> (r: Option<usize>)
        ensures
            match r {
                Some(i) => i < self.active@.len() && self.active@[i as int] == hwnd,
                None => !self.active@.contains(hwnd),
            },
    {
        let mut i: usize = 0;
        while i < self.active.len()
            invariant
                i <= self.active@.len(),
                forall|j: int| 0 <= j < i ==> self.active@[j] != hwnd,
            decreases self.active@.len() - i,
        {
            if self.active[i] == hwnd {
                return Some(i);
            }
            i += 1;
        }
        None
    }

    /// Starts an animation for `hwnd` unless one is already running for
    /// it (a second pass is never stacked onto the same window).
    pub fn restore_animated(&mut self, hwnd: isize) -> (started: bool)
        ensures
            started == !old(self)@.contains(hwnd),
            final(self)@ == old(self)@.insert(hwnd),
    {
        match self.position(hwnd) {
            Some(_) => {
                proof {
                    assert(self@.contains(hwnd));
                    assert(self@.insert(hwnd) =~= self@);
                }
                false
            },
            None => {
                let ghost before = self.active@;
                self.active.push(hwnd);
                proof {
                    assert(self.active@ =~= before.push(hwnd));
                    Seq::lemma_to_set_insert_commutes(before, hwnd);
                    assert(before + seq![hwnd] =~= before.push(hwnd));
                }
                true
            },
        }
    }

    /// The animation of `hwnd` ended (or could not start).
    pub fn finished(&mut self, hwnd: isize)
        ensures
            final(self)@ == old(self)@.remove(hwnd),
    {
        let ghost before = self.active@;
        let mut kept: Vec<isize> = Vec::new();
        let mut i: usize = 0;
        while i < self.active.len()
            invariant
                i <= self.active@.len(),
                self.active@ == before,
                forall|x: isize| #[trigger] kept@.contains(x) == (x != hwnd && before.take(i as int).contains(x)),
            decreases self.active@.len() - i,
        {
            let x = self.active[i];
            let ghost prev = kept@;
            if x != hwnd {
                kept.push(x);
            }
            proof {
                let t0 = before.take(i as int);
                let t1 = before.take(i + 1);
                assert forall|y: isize| #[trigger] kept@.contains(y) == (y != hwnd && t1.contains(y)) by {
                    if t1.contains(y) {
                        let k = choose|k: int| 0 <= k < t1.len() && t1[k] == y;
                        if k < i {
                            assert(t0[k] == y);
                        }
                    }
                    if t0.contains(y) {
                        let k = choose|k: int| 0 <= k < t0.len() && t0[k] == y;
                        assert(t1[k] == y);
                    }
                    assert(t1[i as int] == x);
                    if x != hwnd {
                        if prev.contains(y) {
                            let k = choose|k: int| 0 <= k < prev.len() && prev[k] == y;
                            assert(kept@[k] == y);
                        }
                        if kept@.contains(y) && y != x {
                            let k = choose|k: int| 0 <= k < kept@.len() && kept@[k] == y;
                            assert(k < prev.len());
                            assert(prev[k] == y);
                        }
                        assert(kept@[prev.len() as int] == x);
                    }
                }
            }
            i += 1;
        }
        self.active = kept;
        proof {
            assert(before.take(before.len() as int) =~= before);
            assert(self@ =~= before.to_set().remove(hwnd));
        }
    }
}

/// Size the animation starts from: the button's, at least 1 px each way.
pub fn origin_size(o: &OriginRect) -> (r: (i32, i32))
    ensures
        r.0 == if o.w >= 1 { o.w } else { 1 },
        r.1 == if o.h >= 1 { o.h } else { 1 },
{
    (if o.w >= 1 { o.w } else { 1 }, if o.h >= 1 { o.h } else { 1 })
}

/// Size the window lands at: its restored rectangle's, at least 1 px each
/// way.
pub fn landing_size(r: &Rect) -> (s: (i32, i32))
    requires
        i32::MIN <= r.right - r.left <= i32::MAX,
        i32::MIN <= r.bottom - r.top <= i32::MAX,
    ensures
        s.0 == if r.right - r.left >= 1 { r.right - r.left } else { 1 },
        s.1 == if r.bottom - r.top >= 1 { r.bottom - r.top } else { 1 },
{
    let w = r.right - r.left;
    let h = r.bottom - r.top;
    (if w >= 1 { w } else { 1 }, if h >= 1 { h } else { 1 })
}

/// While a window animates, a second request for it does not start
/// another pass; once it finished, the next request starts one.
pub proof fn law_no_stacked_animation(active: Set<isize>, hwnd: isize)
    ensures
        active.insert(hwnd).contains(hwnd),
        !active.insert(hwnd).remove(hwnd).contains(hwnd),
{
}

} // verus!
