//! Persisted configuration: settings, themes, table positions, and the
//! file names under the configuration directory.
use vstd::prelude::*;

verus! {

/// The files the configuration directory can hold (removed by `-rs`).
pub fn config_file_names() -> (names: [&'static str; 9])
    ensures
        names@.len() == 9,
        names@[0]@ == "blacklist.json"@,
        names@[1]@ == "clipboard.json"@,
        names@[2]@ == "notes.txt"@,
        names@[3]@ == "widgets.json"@,
        names@[4]@ == "widget_visibility.json"@,
        names@[5]@ == "icon_recolor.json"@,
        names@[6]@ == "settings.json"@,
        names@[7]@ == "themes.json"@,
        names@[8]@ == "tables.json"@,
{
    [
        "blacklist.json",
        "clipboard.json",
        "notes.txt",
        "widgets.json",
        "widget_visibility.json",
        "icon_recolor.json",
        "settings.json",
        "themes.json",
        "tables.json",
    ]
}

// ---------------------------------------------------------------------------
// Themes
// ---------------------------------------------------------------------------

/// The CSS custom properties of one palette (serialized with kebab-case
/// names such as `bg-espresso`).
pub struct ThemeColors {
    pub bg_espresso: String,
    pub bg_espresso_rgb: String,
    pub bg_espresso_deep: String,
    pub bg_espresso_deep_rgb: String,
    pub bg_espresso_raised: String,
    pub bg_espresso_raised_rgb: String,
    pub bg_espresso_frosted: String,
    pub bg_espresso_glass: String,
    pub sand: String,
    pub sand_rgb: String,
    pub sand_bright: String,
    pub sand_bright_rgb: String,
    pub sand_dim: String,
    pub sand_dim_rgb: String,
    pub sand_cream: String,
    pub sand_cream_rgb: String,
    pub accent_terracotta: String,
    pub accent_terracotta_rgb: String,
    pub accent_caramel: String,
    pub accent_caramel_rgb: String,
    pub accent_soft: String,
    pub border_subtle: String,
    pub border_strong: String,
    pub status_running: String,
    pub status_pinned: String,
    pub danger: String,
    pub danger_rgb: String,
    pub text_primary: String,
    pub text_secondary: String,
    pub text_muted: String,
    pub shadow_window: String,
    pub shadow_popup: String,
    pub shadow_icon_hover: String,
    pub shadow_card: String,
}

pub struct Theme {
    pub name: String,
    pub active: bool,
    pub colors: ThemeColors,
}

pub struct ThemesConfig {
    pub themes: Vec<Theme>,
}

/// The palette values, in declaration order.
pub open spec fn colors_view(c: ThemeColors) -> Seq<Seq<char>> {
    seq![
        c.bg_espresso@,
        c.bg_espresso_rgb@,
        c.bg_espresso_deep@,
        c.bg_espresso_deep_rgb@,
        c.bg_espresso_raised@,
        c.bg_espresso_raised_rgb@,
        c.bg_espresso_frosted@,
        c.bg_espresso_glass@,
        c.sand@,
        c.sand_rgb@,
        c.sand_bright@,
        c.sand_bright_rgb@,
        c.sand_dim@,
        c.sand_dim_rgb@,
        c.sand_cream@,
        c.sand_cream_rgb@,
        c.accent_terracotta@,
        c.accent_terracotta_rgb@,
        c.accent_caramel@,
        c.accent_caramel_rgb@,
        c.accent_soft@,
        c.border_subtle@,
        c.border_strong@,
        c.status_running@,
        c.status_pinned@,
        c.danger@,
        c.danger_rgb@,
        c.text_primary@,
        c.text_secondary@,
        c.text_muted@,
        c.shadow_window@,
        c.shadow_popup@,
        c.shadow_icon_hover@,
        c.shadow_card@
    ]
}

/// Plain-value image of a theme: (name, active, palette).
pub open spec fn theme_view(t: Theme) -> (Seq<char>, bool, Seq<Seq<char>>) {
    (t.name@, t.active, colors_view(t.colors))
}

pub open spec fn themes_view(ts: Seq<Theme>) -> Seq<(Seq<char>, bool, Seq<Seq<char>>)> {
    ts.map_values(|t: Theme| theme_view(t))
}

/// The `material3-dark` palette: flat neutral grays, opaque surfaces.
pub open spec fn material3_dark_colors() -> Seq<Seq<char>> {
    seq![
                "#1C1C1C"@,
                "28, 28, 28"@,
                "#131313"@,
                "19, 19, 19"@,
                "#2A2A2A"@,
                "42, 42, 42"@,
                "#1C1C1C"@,
                "#1C1C1C"@,
                "#8A8A8A"@,
                "138, 138, 138"@,
                "#C6C6C6"@,
                "198, 198, 198"@,
                "#4A4A4A"@,
                "74, 74, 74"@,
                "#E8E8E8"@,
                "232, 232, 232"@,
                "#ABABAB"@,
                "171, 171, 171"@,
                "#C4C4C4"@,
                "196, 196, 196"@,
                "rgba(171,171,171,0.14)"@,
                "rgba(232,232,232,0.06)"@,
                "rgba(232,232,232,0.16)"@,
                "#C4C4C4"@,
                "#6E6E6E"@,
                "#C97A74"@,
                "201, 122, 116"@,
                "#E8E8E8"@,
                "#C0C0C0"@,
                "#8A8A8A"@,
                "0 1px 3px rgba(0, 0, 0, 0.24)"@,
                "0 1px 3px rgba(0, 0, 0, 0.30), 0 4px 10px rgba(0, 0, 0, 0.25)"@,
                "0 1px 2px rgba(0, 0, 0, 0.20)"@,
                "0 8px 24px rgba(0, 0, 0, 0.45)"@
    ]
}

pub open spec fn default_name() -> Seq<char> {
    "material3-dark"@
}

impl ThemeColors {
    /// Field-by-field copy.
    pub fn duplicate(&self) -> (r: ThemeColors)
        ensures
            r == *self,
    {
        ThemeColors {
            bg_espresso: self.bg_espresso.clone(),
            bg_espresso_rgb: self.bg_espresso_rgb.clone(),
            bg_espresso_deep: self.bg_espresso_deep.clone(),
            bg_espresso_deep_rgb: self.bg_espresso_deep_rgb.clone(),
            bg_espresso_raised: self.bg_espresso_raised.clone(),
            bg_espresso_raised_rgb: self.bg_espresso_raised_rgb.clone(),
            bg_espresso_frosted: self.bg_espresso_frosted.clone(),
            bg_espresso_glass: self.bg_espresso_glass.clone(),
            sand: self.sand.clone(),
            sand_rgb: self.sand_rgb.clone(),
            sand_bright: self.sand_bright.clone(),
            sand_bright_rgb: self.sand_bright_rgb.clone(),
            sand_dim: self.sand_dim.clone(),
            sand_dim_rgb: self.sand_dim_rgb.clone(),
            sand_cream: self.sand_cream.clone(),
            sand_cream_rgb: self.sand_cream_rgb.clone(),
            accent_terracotta: self.accent_terracotta.clone(),
            accent_terracotta_rgb: self.accent_terracotta_rgb.clone(),
            accent_caramel: self.accent_caramel.clone(),
            accent_caramel_rgb: self.accent_caramel_rgb.clone(),
            accent_soft: self.accent_soft.clone(),
            border_subtle: self.border_subtle.clone(),
            border_strong: self.border_strong.clone(),
            status_running: self.status_running.clone(),
            status_pinned: self.status_pinned.clone(),
            danger: self.danger.clone(),
            danger_rgb: self.danger_rgb.clone(),
            text_primary: self.text_primary.clone(),
            text_secondary: self.text_secondary.clone(),
            text_muted: self.text_muted.clone(),
            shadow_window: self.shadow_window.clone(),
            shadow_popup: self.shadow_popup.clone(),
            shadow_icon_hover: self.shadow_icon_hover.clone(),
            shadow_card: self.shadow_card.clone(),
        }
    }
}

impl Theme {
    /// Field-by-field copy.
    pub fn duplicate(&self) -> (r: Theme)
        ensures
            r == *self,
    {
        Theme { name: self.name.clone(), active: self.active, colors: self.colors.duplicate() }
    }
}

/// The built-in theme set: `material3-dark`, active.
pub fn default_themes() -> (c: ThemesConfig)
    ensures
        themes_view(c.themes@) == seq![(default_name(), true, material3_dark_colors())],
{
    let colors = ThemeColors {
            bg_espresso: "#1C1C1C".to_owned(),
            bg_espresso_rgb: "28, 28, 28".to_owned(),
            bg_espresso_deep: "#131313".to_owned(),
            bg_espresso_deep_rgb: "19, 19, 19".to_owned(),
            bg_espresso_raised: "#2A2A2A".to_owned(),
            bg_espresso_raised_rgb: "42, 42, 42".to_owned(),
            bg_espresso_frosted: "#1C1C1C".to_owned(),
            bg_espresso_glass: "#1C1C1C".to_owned(),
            sand: "#8A8A8A".to_owned(),
            sand_rgb: "138, 138, 138".to_owned(),
            sand_bright: "#C6C6C6".to_owned(),
            sand_bright_rgb: "198, 198, 198".to_owned(),
            sand_dim: "#4A4A4A".to_owned(),
            sand_dim_rgb: "74, 74, 74".to_owned(),
            sand_cream: "#E8E8E8".to_owned(),
            sand_cream_rgb: "232, 232, 232".to_owned(),
            accent_terracotta: "#ABABAB".to_owned(),
            accent_terracotta_rgb: "171, 171, 171".to_owned(),
            accent_caramel: "#C4C4C4".to_owned(),
            accent_caramel_rgb: "196, 196, 196".to_owned(),
            accent_soft: "rgba(171,171,171,0.14)".to_owned(),
            border_subtle: "rgba(232,232,232,0.06)".to_owned(),
            border_strong: "rgba(232,232,232,0.16)".to_owned(),
            status_running: "#C4C4C4".to_owned(),
            status_pinned: "#6E6E6E".to_owned(),
            danger: "#C97A74".to_owned(),
            danger_rgb: "201, 122, 116".to_owned(),
            text_primary: "#E8E8E8".to_owned(),
            text_secondary: "#C0C0C0".to_owned(),
            text_muted: "#8A8A8A".to_owned(),
            shadow_window: "0 1px 3px rgba(0, 0, 0, 0.24)".to_owned(),
            shadow_popup: "0 1px 3px rgba(0, 0, 0, 0.30), 0 4px 10px rgba(0, 0, 0, 0.25)".to_owned(),
            shadow_icon_hover: "0 1px 2px rgba(0, 0, 0, 0.20)".to_owned(),
            shadow_card: "0 8px 24px rgba(0, 0, 0, 0.45)".to_owned(),
    };
    let mut themes = Vec::new();
    themes.push(Theme { name: "material3-dark".to_owned(), active: true, colors });
    assert(themes_view(themes@) =~= seq![(default_name(), true, material3_dark_colors())]);
    ThemesConfig { themes }
}

/// Index of the first active theme.
pub open spec fn first_active(ts: Seq<Theme>) -> Option<int>
    decreases ts.len(),
{
    if ts.len() == 0 {
        None
    } else {
        match first_active(ts.drop_last()) {
            Some(k) => Some(k),
            None => if ts.last().active {
                Some(ts.len() - 1)
            } else {
                None
            },
        }
    }
}

proof fn lemma_first_active_prefix(ts: Seq<Theme>, n: int)
    requires
        0 <= n <= ts.len(),
        first_active(ts.take(n)) is Some,
    ensures
        first_active(ts) == first_active(ts.take(n)),
    decreases ts.len() - n,
{
    if n < ts.len() {
        assert(ts.take(n + 1).drop_last() =~= ts.take(n));
        lemma_first_active_prefix(ts, n + 1);
    } else {
        assert(ts.take(n) =~= ts);
    }
}

proof fn lemma_first_active_in_range(ts: Seq<Theme>)
    ensures
        first_active(ts) matches Some(k) ==> 0 <= k < ts.len(),
    decreases ts.len(),
{
    if ts.len() > 0 {
        lemma_first_active_in_range(ts.drop_last());
    }
}

/// The active theme: the first theme flagged active, if any.
pub fn get_active_theme(config: &ThemesConfig) -> (t: Option<Theme>)
    ensures
        first_active(config.themes@) matches Some(k) ==> 0 <= k < config.themes@.len() && t == Some(
            config.themes@[k],
        ),
        first_active(config.themes@) is None ==> t is None,
{
    let ts = &config.themes;
    proof { lemma_first_active_in_range(ts@); }
    let mut i: usize = 0;
    while i < ts.len()
        invariant
            i <= ts@.len(),
            ts@ == config.themes@,
            first_active(ts@.take(i as int)) is None,
        decreases ts@.len() - i,
    {
        assert(ts@.take(i + 1).drop_last() =~= ts@.take(i as int));
        if ts[i].active {
            proof {
                let p = ts@.take(i + 1);
                assert(p.len() == i + 1);
                assert(p.last() == ts@[i as int]);
                assert(first_active(p) == Some(i as int));
                lemma_first_active_prefix(ts@, i + 1);
            }
            return Some(ts[i].duplicate());
        }
        i += 1;
    }
    assert(ts@.take(ts@.len() as int) =~= ts@);
    None
}

/// After selecting `name`, exactly the themes named `name` are active.
pub open spec fn with_active(ts: Seq<Theme>, name: Seq<char>) -> Seq<(Seq<char>, bool, Seq<Seq<char>>)> {
    ts.map_values(|t: Theme| (t.name@, t.name@ == name, colors_view(t.colors)))
}

/// Make `name` the active theme (every theme is flagged active iff its
/// name is `name`; nothing else changes).
pub fn set_active_theme(config: &mut ThemesConfig, name: &str)
    ensures
        themes_view(final(config).themes@) == with_active(old(config).themes@, name@),
{
    let ghost old_ts = config.themes@;
    let n = crate::text::to_owned_string(name);
    let mut out: Vec<Theme> = Vec::new();
    let mut i: usize = 0;
    while i < config.themes.len()
        invariant
            i <= config.themes@.len(),
            config.themes@ == old_ts,
            n@ == name@,
            themes_view(out@) == with_active(old_ts.take(i as int), name@),
        decreases config.themes@.len() - i,
    {
        let t = &config.themes[i];
        let nt = Theme { name: t.name.clone(), active: t.name == n, colors: t.colors.duplicate() };
        let ghost before = out@;
        out.push(nt);
        assert(themes_view(out@) =~= themes_view(before).push(theme_view(nt)));
        assert(with_active(old_ts.take(i + 1), name@) =~= with_active(old_ts.take(i as int), name@).push(
            (t.name@, t.name@ == name@, colors_view(t.colors)),
        ));
        i += 1;
    }
    assert(old_ts.take(old_ts.len() as int) =~= old_ts);
    config.themes = out;
}

/// Does the set hold a theme named `material3-dark`?
pub open spec fn has_default(ts: Seq<Theme>) -> bool {
    exists|i: int| 0 <= i < ts.len() && (#[trigger] ts[i]).name@ == default_name()
}

/// Theme set to use after reading `themes.json`: a parsed file that
/// already contains `material3-dark` is kept as the user edited it; an
/// older set, an unreadable file or a missing file gives the defaults,
/// which are then written back (`true`).
pub fn resolve_loaded_themes(parsed: Option<ThemesConfig>) -> (r: (ThemesConfig, bool))
    ensures
        match parsed {
            Some(c) => if has_default(c.themes@) {
                r.0 == c && !r.1
            } else {
                themes_view(r.0.themes@) == seq![(default_name(), true, material3_dark_colors())] && r.1
            },
            None => themes_view(r.0.themes@) == seq![(default_name(), true, material3_dark_colors())]
                && r.1,
        },
{
    match parsed {
        Some(c) => {
            let mut i: usize = 0;
            while i < c.themes.len()
                invariant
                    i <= c.themes@.len(),
                    parsed == Some(c),
                    forall|j: int| 0 <= j < i ==> (#[trigger] c.themes@[j]).name@ != default_name(),
                decreases c.themes@.len() - i,
            {
                if crate::text::str_equal(c.themes[i].name.as_str(), "material3-dark") {
                    assert(c.themes@[i as int].name@ == default_name());
                    assert(has_default(c.themes@));
                    return (c, false);
                }
                i += 1;
            }
            (default_themes(), true)
        },
        None => (default_themes(), true),
    }
}

pub open spec fn first_named(ts: Seq<Theme>, name: Seq<char>) -> Option<int>
    decreases ts.len(),
{
    if ts.len() == 0 {
        None
    } else {
        match first_named(ts.drop_last(), name) {
            Some(k) => Some(k),
            None => if ts.last().name@ == name {
                Some(ts.len() - 1)
            } else {
                None
            },
        }
    }
}

pub open spec fn first_active_view(vs: Seq<(Seq<char>, bool, Seq<Seq<char>>)>) -> Option<int>
    decreases vs.len(),
{
    if vs.len() == 0 {
        None
    } else {
        match first_active_view(vs.drop_last()) {
            Some(k) => Some(k),
            None => if vs.last().1 {
                Some(vs.len() - 1)
            } else {
                None
            },
        }
    }
}

/// The active theme only depends on the themes' plain values.
pub proof fn lemma_first_active_view(ts: Seq<Theme>)
    ensures
        first_active(ts) == first_active_view(themes_view(ts)),
    decreases ts.len(),
{
    if ts.len() > 0 {
        assert(themes_view(ts.drop_last()) =~= themes_view(ts).drop_last());
        lemma_first_active_view(ts.drop_last());
    }
}

/// Selecting a theme and then asking for the active one gives the first
/// theme with that name (none when no theme has it); names and palettes
/// are untouched.
pub proof fn law_select_then_get(old_ts: Seq<Theme>, new_ts: Seq<Theme>, name: Seq<char>)
    requires
        themes_view(new_ts) == with_active(old_ts, name),
    ensures
        first_active(new_ts) == first_named(old_ts, name),
        new_ts.len() == old_ts.len(),
        forall|i: int|
            0 <= i < new_ts.len() ==> (#[trigger] new_ts[i]).name@ == old_ts[i].name@ && colors_view(
                new_ts[i].colors,
            ) == colors_view(old_ts[i].colors),
{
    lemma_first_active_view(new_ts);
    lemma_select_view(old_ts, name);
    assert(themes_view(new_ts).len() == new_ts.len());
    assert forall|i: int| 0 <= i < new_ts.len() implies (#[trigger] new_ts[i]).name@
        == old_ts[i].name@ && colors_view(new_ts[i].colors) == colors_view(old_ts[i].colors) by {
        assert(themes_view(new_ts)[i] == with_active(old_ts, name)[i]);
    }
}

proof fn lemma_select_view(ts: Seq<Theme>, name: Seq<char>)
    ensures
        first_active_view(with_active(ts, name)) == first_named(ts, name),
    decreases ts.len(),
{
    if ts.len() > 0 {
        assert(with_active(ts.drop_last(), name) =~= with_active(ts, name).drop_last());
        lemma_select_view(ts.drop_last(), name);
    }
}

// ---------------------------------------------------------------------------
// Settings
// ---------------------------------------------------------------------------

/// User settings (`settings.json`). The taskbar-table magnification, a
/// float, is kept next to these by the platform layer.
pub struct Settings {
    pub theme: String,
    pub auto_fullscreen: bool,
    pub refresh_interval: u64,
    pub cube_animation: bool,
    /// How long Win must be held before the table picker appears (ms).
    pub tables_hold_ms: u64,
    /// Taskbar clock: 24h (true) or 12h.
    pub clock_24h: bool,
    /// Minimize every open window when flatlight opens.
    pub minimize_on_launcher: bool,
    /// Name shown in the widgets-table header.
    pub user_name: String,
    /// Show the desktop icons in the launcher grid.
    pub show_desktop_grid: bool,
    /// Show the original Windows taskbar instead of the custom one.
    pub show_native_taskbar: bool,
}

/// A partial settings update as sent by the settings table: only the
/// fields present are applied.
pub struct SettingsUpdate {
    pub theme: Option<String>,
    pub auto_fullscreen: Option<bool>,
    pub refresh_interval: Option<u64>,
    pub cube_animation: Option<bool>,
    pub tables_hold_ms: Option<u64>,
    pub clock_24h: Option<bool>,
    pub minimize_on_launcher: Option<bool>,
    pub user_name: Option<String>,
    pub show_desktop_grid: Option<bool>,
    pub show_native_taskbar: Option<bool>,
}

/// Longest user name kept (characters).
pub const MAX_USER_NAME: usize = 32;

/// Default hold threshold (`#[serde(default)]` of `tables_hold_ms`).
pub fn default_tables_hold_ms() -> (ms: u64)
    ensures
        ms == 220,
{
    220
}

/// Default of the boolean settings that are on unless set.
pub fn default_true() -> (b: bool)
    ensures
        b,
{
    true
}

/// Plain-value image of the settings.
pub open spec fn settings_view(s: Settings) -> (Seq<char>, bool, u64, bool, u64, bool, bool, Seq<char>, bool, bool) {
    (
        s.theme@,
        s.auto_fullscreen,
        s.refresh_interval,
        s.cube_animation,
        s.tables_hold_ms,
        s.clock_24h,
        s.minimize_on_launcher,
        s.user_name@,
        s.show_desktop_grid,
        s.show_native_taskbar,
    )
}

/// The settings a fresh (or unreadable) `settings.json` gives.
pub fn default_settings() -> (s: Settings)
    ensures
        settings_view(s) == (default_name(), true, 2u64, true, 220u64, true, true, Seq::<char>::empty(), true, false),
{
    Settings {
        theme: "material3-dark".to_owned(),
        auto_fullscreen: true,
        refresh_interval: 2,
        cube_animation: true,
        tables_hold_ms: 220,
        clock_24h: true,
        minimize_on_launcher: true,
        user_name: String::new(),
        show_desktop_grid: true,
        show_native_taskbar: false,
    }
}

pub open spec fn clamp_hold(ms: u64) -> u64 {
    if ms < 80 {
        80
    } else if ms > 1000 {
        1000
    } else {
        ms
    }
}

pub open spec fn pick<T>(new: Option<T>, cur: T) -> T {
    match new {
        Some(v) => v,
        None => cur,
    }
}

pub open spec fn pick_str(new: Option<String>, cur: Seq<char>) -> Seq<char> {
    match new {
        Some(v) => v@,
        None => cur,
    }
}

/// The settings after applying an update: every present field replaces
/// the current value; the hold threshold is clamped to 80..=1000 ms and
/// the user name is cut to its first 32 characters.
pub open spec fn updated_view(cur: Settings, u: SettingsUpdate) -> (Seq<char>, bool, u64, bool, u64, bool, bool, Seq<char>, bool, bool) {
    (
        pick_str(u.theme, cur.theme@),
        pick(u.auto_fullscreen, cur.auto_fullscreen),
        pick(u.refresh_interval, cur.refresh_interval),
        pick(u.cube_animation, cur.cube_animation),
        match u.tables_hold_ms {
            Some(v) => clamp_hold(v),
            None => cur.tables_hold_ms,
        },
        pick(u.clock_24h, cur.clock_24h),
        pick(u.minimize_on_launcher, cur.minimize_on_launcher),
        match u.user_name {
            Some(v) => if v@.len() <= MAX_USER_NAME {
                v@
            } else {
                v@.take(MAX_USER_NAME as int)
            },
            None => cur.user_name@,
        },
        pick(u.show_desktop_grid, cur.show_desktop_grid),
        pick(u.show_native_taskbar, cur.show_native_taskbar),
    )
}

/// The user name as kept: at most its first `MAX_USER_NAME` characters.
fn cap_user_name(name: String) -> (r: String)
    ensures
        r@ == (if name@.len() <= MAX_USER_NAME { name@ } else { name@.take(MAX_USER_NAME as int) }),
{
    let chars = crate::text::str_chars(name.as_str());
    if chars.len() <= MAX_USER_NAME {
        name
    } else {
        let mut cut: Vec<char> = Vec::new();
        let mut i: usize = 0;
        while i < MAX_USER_NAME
            invariant
                i <= MAX_USER_NAME,
                chars@.len() > MAX_USER_NAME,
                cut@ == chars@.take(i as int),
            decreases MAX_USER_NAME - i,
        {
            cut.push(chars[i]);
            assert(chars@.take(i + 1) == chars@.take(i as int).push(chars@[i as int]));
            i += 1;
        }
        crate::text::string_from_chars(cut.as_slice())
    }
}

/// The new value where one is given, else the current one.
fn pick_or<T: Copy>(new: Option<T>, cur: T) -> (r: T)
    ensures
        r == pick(new, cur),
{
    match new {
        Some(v) => v,
        None => cur,
    }
}

/// Apply a partial update to the current settings.
pub fn apply_settings_update(current: &mut Settings, update: SettingsUpdate)
    ensures
        settings_view(*final(current)) == updated_view(*old(current), update),
{
    let SettingsUpdate {
        theme,
        auto_fullscreen,
        refresh_interval,
        cube_animation,
        tables_hold_ms,
        clock_24h,
        minimize_on_launcher,
        user_name,
        show_desktop_grid,
        show_native_taskbar,
    } = update;
    if let Some(t) = theme {
        current.theme = t;
    }
    if let Some(name) = user_name {
        current.user_name = cap_user_name(name);
    }
    if let Some(v) = tables_hold_ms {
        current.tables_hold_ms = crate::hotkey::hold_delay_ms(v);
    }
    current.refresh_interval = pick_or(refresh_interval, current.refresh_interval);
    current.auto_fullscreen = pick_or(auto_fullscreen, current.auto_fullscreen);
    current.cube_animation = pick_or(cube_animation, current.cube_animation);
    current.clock_24h = pick_or(clock_24h, current.clock_24h);
    current.minimize_on_launcher = pick_or(minimize_on_launcher, current.minimize_on_launcher);
    current.show_desktop_grid = pick_or(show_desktop_grid, current.show_desktop_grid);
    current.show_native_taskbar = pick_or(show_native_taskbar, current.show_native_taskbar);
}

/// Applying the same update twice is the same as applying it once, and the
/// hold threshold an update sets always lies in 80..=1000 ms.
pub proof fn law_update_idempotent(cur: Settings, once: Settings, twice: Settings, u: SettingsUpdate)
    requires
        settings_view(once) == updated_view(cur, u),
        settings_view(twice) == updated_view(once, u),
    ensures
        settings_view(twice) == settings_view(once),
        u.tables_hold_ms is Some ==> 80 <= once.tables_hold_ms <= 1000,
        once.user_name@.len() <= MAX_USER_NAME || (u.user_name is None && once.user_name@
            == cur.user_name@),
{
}

/// An empty update changes nothing.
pub proof fn law_empty_update(cur: Settings, u: SettingsUpdate)
    requires
        u.theme is None && u.auto_fullscreen is None && u.refresh_interval is None
            && u.cube_animation is None && u.tables_hold_ms is None && u.clock_24h is None
            && u.minimize_on_launcher is None && u.user_name is None && u.show_desktop_grid is None
            && u.show_native_taskbar is None,
    ensures
        updated_view(cur, u) == settings_view(cur),
{
}

/// Each field an update carries is stored in that same field (the hold
/// threshold clamped to 80..=1000 ms, the user name cut to its first 32
/// characters); each field it leaves out keeps its current value.
pub proof fn law_update_fields(cur: Settings, new: Settings, u: SettingsUpdate)
    requires
        settings_view(new) == updated_view(cur, u),
    ensures
        u.theme matches Some(t) ==> new.theme@ == t@,
        u.theme is None ==> new.theme@ == cur.theme@,
        u.auto_fullscreen matches Some(v) ==> new.auto_fullscreen == v,
        u.auto_fullscreen is None ==> new.auto_fullscreen == cur.auto_fullscreen,
        u.refresh_interval matches Some(v) ==> new.refresh_interval == v,
        u.refresh_interval is None ==> new.refresh_interval == cur.refresh_interval,
        u.cube_animation matches Some(v) ==> new.cube_animation == v,
        u.cube_animation is None ==> new.cube_animation == cur.cube_animation,
        u.tables_hold_ms matches Some(v) ==> {
            &&& 80 <= v <= 1000 ==> new.tables_hold_ms == v
            &&& v < 80 ==> new.tables_hold_ms == 80
            &&& v > 1000 ==> new.tables_hold_ms == 1000
        },
        u.tables_hold_ms is None ==> new.tables_hold_ms == cur.tables_hold_ms,
        u.clock_24h matches Some(v) ==> new.clock_24h == v,
        u.clock_24h is None ==> new.clock_24h == cur.clock_24h,
        u.minimize_on_launcher matches Some(v) ==> new.minimize_on_launcher == v,
        u.minimize_on_launcher is None ==> new.minimize_on_launcher == cur.minimize_on_launcher,
        u.user_name matches Some(n) ==> {
            &&& new.user_name@.len() == if n@.len() < 32 { n@.len() } else { 32 }
            &&& forall|k: int| 0 <= k < new.user_name@.len() ==> new.user_name@[k] == n@[k]
        },
        u.user_name is None ==> new.user_name@ == cur.user_name@,
        u.show_desktop_grid matches Some(v) ==> new.show_desktop_grid == v,
        u.show_desktop_grid is None ==> new.show_desktop_grid == cur.show_desktop_grid,
        u.show_native_taskbar matches Some(v) ==> new.show_native_taskbar == v,
        u.show_native_taskbar is None ==> new.show_native_taskbar == cur.show_native_taskbar,
{
}

} // verus!
