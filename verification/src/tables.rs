//! The Win-hold table picker ("tables") and the table windows it opens.
//!
//! Picker ids: 0 = nothing hovered, 1 = taskbar table, 2 = settings table,
//! 3 = widgets table, 4 = flatlight, 5 = desktop table.
use vstd::prelude::*;
use crate::launcher::bump;

verus! {

/// Backend mirror of the picker overlay.
#[derive(Clone, Copy, PartialEq, Eq, Structural, Debug)]
pub struct PickerState {
    /// Button under the mouse, as last reported by the picker frontend.
    pub hovered: i32,
    /// Picker generation: guards the delayed hide of the dismiss animation.
    pub seq: u64,
}

/// What opening a table does.
#[derive(Clone, Copy, PartialEq, Eq, Structural, Debug)]
pub enum TableOpen {
    /// The vertical taskbar strip next to the picker cursor.
    TaskbarStrip,
    /// A movable table (window label `table-<key>`, position key `<key>`).
    Settings,
    Widgets,
    Desktop,
    /// Show flatlight, unless it is already open.
    Flatlight,
    /// Unknown name: nothing.
    Nothing,
}

/// Outcome of a Win release over the picker.
#[derive(Clone, Copy, PartialEq, Eq, Structural, Debug)]
pub enum ReleaseOutcome {
    /// Open table `id` (1..=5).
    Open(i32),
    /// Nothing hovered: dismiss with the pop-out animation.
    Dismiss,
}

pub open spec fn table_name(id: i32) -> Seq<char> {
    if id == 1 {
        "taskbar"@
    } else if id == 2 {
        "settings"@
    } else if id == 3 {
        "widgets"@
    } else if id == 4 {
        "flatlight"@
    } else if id == 5 {
        "desktop"@
    } else {
        ""@
    }
}

/// Map a picker id to its table name ("" for anything else).
pub fn table_name_from_id(id: i32) -> (name: &'static str)
    ensures
        name@ == table_name(id),
{
    match id {
        1 => "taskbar",
        2 => "settings",
        3 => "widgets",
        4 => "flatlight",
        5 => "desktop",
        _ => "",
    }
}

pub open spec fn clamp_hover(id: i32) -> i32 {
    if id < 0 {
        0
    } else if id > 5 {
        5
    } else {
        id
    }
}

pub open spec fn open_action(name: Seq<char>) -> TableOpen {
    if name == "taskbar"@ {
        TableOpen::TaskbarStrip
    } else if name == "settings"@ {
        TableOpen::Settings
    } else if name == "widgets"@ {
        TableOpen::Widgets
    } else if name == "desktop"@ {
        TableOpen::Desktop
    } else if name == "flatlight"@ {
        TableOpen::Flatlight
    } else {
        TableOpen::Nothing
    }
}


/// Which table a name opens (`open_table` command and Win release).
pub fn table_open_action(name: &str) -> (a: TableOpen)
    ensures
        a == open_action(name@),
{
    if crate::text::str_equal(name, "taskbar") {
        TableOpen::TaskbarStrip
    } else if crate::text::str_equal(name, "settings") {
        TableOpen::Settings
    } else if crate::text::str_equal(name, "widgets") {
        TableOpen::Widgets
    } else if crate::text::str_equal(name, "desktop") {
        TableOpen::Desktop
    } else if crate::text::str_equal(name, "flatlight") {
        TableOpen::Flatlight
    } else {
        TableOpen::Nothing
    }
}

pub open spec fn close_label(name: Seq<char>) -> Option<Seq<char>> {
    if name == "taskbar"@ {
        Some("table-taskbar"@)
    } else if name == "settings"@ {
        Some("table-settings"@)
    } else if name == "widgets"@ {
        Some("table-widgets"@)
    } else if name == "desktop"@ {
        Some("table-desktop"@)
    } else if name == "tables"@ {
        Some("tables"@)
    } else {
        None
    }
}

/// Window label that `close_table(name)` hides (`None`: unknown name,
/// nothing happens).
pub fn close_table_label(name: &str) -> (label: Option<&'static str>)
    ensures
        match label {
            Some(l) => close_label(name@) == Some(l@),
            None => close_label(name@) is None,
        },
{
    if crate::text::str_equal(name, "taskbar") {
        Some("table-taskbar")
    } else if crate::text::str_equal(name, "settings") {
        Some("table-settings")
    } else if crate::text::str_equal(name, "widgets") {
        Some("table-widgets")
    } else if crate::text::str_equal(name, "desktop") {
        Some("table-desktop")
    } else if crate::text::str_equal(name, "tables") {
        Some("tables")
    } else {
        None
    }
}

pub open spec fn moved_key(label: Seq<char>) -> Option<Seq<char>> {
    if label == "table-settings"@ {
        Some("settings"@)
    } else if label == "table-widgets"@ {
        Some("widgets"@)
    } else if label == "table-desktop"@ {
        Some("desktop"@)
    } else {
        None
    }
}

/// Position key a moved window's position is saved under (only the three
/// movable tables are persisted).
pub fn moved_table_key(label: &str) -> (key: Option<&'static str>)
    ensures
        match key {
            Some(k) => moved_key(label@) == Some(k@),
            None => moved_key(label@) is None,
        },
{
    if crate::text::str_equal(label, "table-settings") {
        Some("settings")
    } else if crate::text::str_equal(label, "table-widgets") {
        Some("widgets")
    } else if crate::text::str_equal(label, "table-desktop") {
        Some("desktop")
    } else {
        None
    }
}

impl PickerState {
    /// No picker shown yet.
    pub fn new() -> (s: Self)
        ensures
            s.hovered == 0,
            s.seq == 0,
    {
        PickerState { hovered: 0, seq: 0 }
    }

    /// The picker appears: hover cleared, generation bumped (cancelling
    /// any in-flight animated hide).
    pub fn show(&mut self)
        ensures
            final(self).hovered == 0,
            final(self).seq == bump(old(self).seq),
    {
        self.hovered = 0;
        self.seq = self.seq.wrapping_add(1);
    }

    /// Hover report from the picker frontend, clamped to 0..=5.
    pub fn set_hover(&mut self, id: i32)
        ensures
            final(self).hovered == clamp_hover(id),
            final(self).seq == old(self).seq,
    {
        self.hovered = if id < 0 {
            0
        } else if id > 5 {
            5
        } else {
            id
        };
    }

    /// Win released over the picker: consume the hover state and decide.
    pub fn release(&mut self) -> (o: ReleaseOutcome)
        ensures
            final(self).hovered == 0,
            final(self).seq == old(self).seq,
            1 <= old(self).hovered <= 5 ==> o == ReleaseOutcome::Open(old(self).hovered),
            !(1 <= old(self).hovered <= 5) ==> o == ReleaseOutcome::Dismiss,
    {
        let h = self.hovered;
        self.hovered = 0;
        if h >= 1 && h <= 5 {
            ReleaseOutcome::Open(h)
        } else {
            ReleaseOutcome::Dismiss
        }
    }

    /// A Win combo while the picker is open: forget the hover.
    pub fn cancel(&mut self)
        ensures
            final(self).hovered == 0,
            final(self).seq == old(self).seq,
    {
        self.hovered = 0;
    }

    /// Begin the animated dismiss (only when the picker window exists);
    /// returns the token the delayed hide must still match.
    pub fn hide_animated(&mut self, window_exists: bool) -> (token: Option<u64>)
        ensures
            window_exists ==> final(self).seq == bump(old(self).seq) && token == Some(
                final(self).seq,
            ),
            !window_exists ==> *final(self) == *old(self) && token is None,
            final(self).hovered == old(self).hovered,
    {
        if window_exists {
            self.seq = self.seq.wrapping_add(1);
            Some(self.seq)
        } else {
            None
        }
    }

    /// Instant dismiss (a table is opening right away): the generation is
    /// always bumped.
    pub fn hide_now(&mut self)
        ensures
            final(self).seq == bump(old(self).seq),
            final(self).hovered == old(self).hovered,
    {
        self.seq = self.seq.wrapping_add(1);
    }

    /// The delayed hide armed with `token` fires: hide only if no newer
    /// picker generation exists.
    pub fn delayed_hide_applies(&self, token: u64) -> (b: bool)
        ensures
            b == (self.seq == token),
    {
        self.seq == token
    }
}

/// Hovering table `id` and releasing Win opens exactly that table.
pub proof fn law_release_opens_hovered(id: i32)
    requires
        1 <= id <= 5,
    ensures
        open_action(table_name(id)) == (if id == 1 {
            TableOpen::TaskbarStrip
        } else if id == 2 {
            TableOpen::Settings
        } else if id == 3 {
            TableOpen::Widgets
        } else if id == 4 {
            TableOpen::Flatlight
        } else {
            TableOpen::Desktop
        }),
{
    reveal_strlit("taskbar");
    reveal_strlit("settings");
    reveal_strlit("widgets");
    reveal_strlit("flatlight");
    reveal_strlit("desktop");
    assert("settings"@[0] != "taskbar"@[0]);
    assert("widgets"@[0] != "taskbar"@[0]);
    assert("widgets"@.len() != "settings"@.len());
    assert("flatlight"@[0] != "taskbar"@[0]);
    assert("flatlight"@.len() != "settings"@.len());
    assert("flatlight"@.len() != "widgets"@.len());
    assert("flatlight"@.len() != "desktop"@.len());
    assert("desktop"@[0] != "taskbar"@[0]);
    assert("desktop"@.len() != "settings"@.len());
    assert("desktop"@[0] != "widgets"@[0]);
}

/// A picker re-opened while a dismiss animation is pending cancels that
/// dismiss: the armed token is stale once the picker shows again.
pub proof fn law_reshow_cancels_dismiss(seq: u64)
    ensures
        bump(bump(seq)) != bump(seq),
{
}

} // verus!
