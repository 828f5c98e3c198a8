//! Top-level window listings (window switcher, blacklist matching).
use vstd::prelude::*;

verus! {

/// A window as shown in the window switcher.
pub struct WindowPreview {
    pub hwnd: usize,
    pub title: String,
    pub icon_data_url: Option<String>,
}

/// A visible top-level window together with its process image.
pub struct WindowWithExe {
    pub hwnd: usize,
    pub title: String,
    pub icon_data_url: Option<String>,
    /// Full process image path ("" when it could not be resolved).
    pub exe_path: String,
    pub pid: u32,
}

pub fn clone_opt_string(o: &Option<String>) -> (r: Option<String>)
    ensures
        r == *o,
{
    match o {
        Some(s) => Some(s.clone()),
        None => None,
    }
}

impl WindowWithExe {
    /// The switcher entry for this window.
    pub fn to_preview(&self) -> (p: WindowPreview)
        ensures
            p.hwnd == self.hwnd,
            p.title == self.title,
            p.icon_data_url == self.icon_data_url,
    {
        WindowPreview {
            hwnd: self.hwnd,
            title: self.title.clone(),
            icon_data_url: clone_opt_string(&self.icon_data_url),
        }
    }
}

/// The switcher list: every listed window, in order.
pub fn previews_of(windows: &[WindowWithExe]) -> (out: Vec<WindowPreview>)
    ensures
        out@.len() == windows@.len(),
        forall|i: int|
            0 <= i < out@.len() ==> (#[trigger] out@[i]).hwnd == windows@[i].hwnd && out@[i].title
                == windows@[i].title && out@[i].icon_data_url == windows@[i].icon_data_url,
{
    let mut out: Vec<WindowPreview> = Vec::new();
    let mut i: usize = 0;
    while i < windows.len()
        invariant
            i <= windows@.len(),
            out@.len() == i,
            forall|j: int|
                0 <= j < i ==> (#[trigger] out@[j]).hwnd == windows@[j].hwnd && out@[j].title
                    == windows@[j].title && out@[j].icon_data_url == windows@[j].icon_data_url,
        decreases windows@.len() - i,
    {
        out.push(windows[i].to_preview());
        i += 1;
    }
    out
}

} // verus!
